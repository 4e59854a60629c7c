//! The adapter for Bing.

use vstd::prelude::*;
use vstd::string::*;
use http::{HeaderMap, HeaderValue};
use crate::agent::{no_js_pool, UserAgent};
use crate::document::{
    any_of, every, exactly, first, ClassNames, Document, Element, ElementView, Scope, Selector,
    SelectorView,
};
use crate::encode::{
    free_upto, is_url_text, lemma_free_upto, lemma_url_text_upto, url_text_upto, QueryParams,
};
use crate::engine::{request, 
    extract_results, or_empty, strip_prefix, text_or_empty, without_prefix, Engine, Extractor,
    ParserMode,
};
use crate::headers::{
    accept_html, append_header, appended, bing_region_cookie, form_urlencoded, header_fields,
    insert_header, lemma_room, referer_google, replaced,
};
use crate::registry::TaggedEngine;
use crate::response::{FinalUrl, FinalUrlView};
use crate::sanitize::{free_of, sanitized};
use crate::search::{ResultView, SearchError, SearchOptions, SearchResult, TrackingParams};
use crate::text::{decimal, has_prefix, push_signed_decimal, signed_decimal, strs};
use crate::time::DateTimeRange;

verus! {

/// An engine which reads search results from Bing.
pub struct BingEngine;

impl BingEngine {
    /// Creates a new Bing engine.
    pub fn new() -> (r: TaggedEngine)
        ensures
            r == TaggedEngine::Bing(BingEngine),
    {
        TaggedEngine::Bing(BingEngine)
    }
}

/// A range of dates as Bing's filter names it, both ends given as days since
/// 1970-01-01.
pub open spec fn bing_period(range: DateTimeRange) -> Seq<char> {
    "ex1:\"ez5_"@ + signed_decimal(range.start.epoch_days()) + seq!['_'] + signed_decimal(
        range.end.epoch_days(),
    ) + seq!['"']
}

/// The parameters of a request. Results are counted from 1, ten to a page;
/// a range of dates adds a filter.
pub open spec fn bing_params(query: Seq<char>, options: SearchOptions) -> Seq<
    (Seq<char>, Seq<char>),
> {
    seq![
        ("q"@, query),
        ("first"@, decimal(options.first_result(1))),
        ("form"@, "QBLH"@),
        ("safeSearch"@, options.safe_search.word()),
    ] + match options.date_time_range {
        Some(range) => seq![("filters"@, bing_period(range))],
        None => Seq::empty(),
    }
}

fn period(range: &DateTimeRange) -> (r: String)
    ensures
        r@ == bing_period(*range),
{
    let mut r = String::from_str("ex1:\"ez5_");
    push_signed_decimal(&mut r, range.start.days_since_epoch());
    r.push('_');
    push_signed_decimal(&mut r, range.end.days_since_epoch());
    r.push('"');
    assert(r@ =~= bing_period(*range));
    r
}

/// What Bing puts before the summary of a dated result: a no-break space, a
/// middle dot and a space.
pub open spec fn bing_date_separator() -> Seq<char> {
    "\u{a0}\u{b7} "@
}

/// The summary of a plain result: the raw text of the clamped line inside
/// the caption, without the separator at its start.
pub open spec fn bing_text_summary(doc: Seq<ElementView>, item: usize) -> Option<Seq<char>> {
    match first(
        doc,
        Scope::Within(item),
        SelectorView::Classes(exactly(seq!["b_caption"@, "b_capmedia"@])),
    ) {
        Some(caption) => match first(
            doc,
            Scope::Within(caption),
            SelectorView::Classes(exactly(seq!["b_lineclamp3"@])),
        ) {
            Some(line) => match doc[line as int].raw_text {
                Some(text) => Some(without_prefix(text, bing_date_separator())),
                None => None,
            },
            None => None,
        },
        None => None,
    }
}

/// The summary of a result shown as cards: the text of the second content
/// block among the children of the slide.
pub open spec fn bing_card_summary(doc: Seq<ElementView>, item: usize) -> Seq<char> {
    match first(
        doc,
        Scope::Within(item),
        SelectorView::Classes(exactly(seq!["b_cards2"@, "slide"@])),
    ) {
        Some(slide) => {
            let blocks = every(
                doc,
                Scope::ChildrenOf(slide),
                SelectorView::Classes(exactly(seq!["exsni"@])),
            );
            if blocks.len() > 1 {
                or_empty(doc[blocks[1] as int].text)
            } else {
                Seq::empty()
            }
        },
        None => Seq::empty(),
    }
}

/// The summary of a result: that of a plain result where it has one, else
/// that of its cards.
pub open spec fn bing_summary(doc: Seq<ElementView>, item: usize) -> Seq<char> {
    match bing_text_summary(doc, item) {
        Some(text) => text,
        None => bing_card_summary(doc, item),
    }
}

fn text_summary(doc: &Document, item: usize) -> (r: Option<String>)
    ensures
        match r {
            Some(text) => bing_text_summary(doc@, item) == Some(text@),
            None => bing_text_summary(doc@, item) is None,
        },
{
    let caption_names = vec!["b_caption", "b_capmedia"];
    assert(strs(caption_names@) =~= seq!["b_caption"@, "b_capmedia"@]);
    let caption_classes = ClassNames::exact(caption_names);
    let caption = match doc.first(Scope::Within(item), &Selector::Classes(&caption_classes)) {
        Some(caption) => caption,
        None => {
            return None;
        },
    };
    let line_names = vec!["b_lineclamp3"];
    assert(strs(line_names@) =~= seq!["b_lineclamp3"@]);
    let line_classes = ClassNames::exact(line_names);
    let line = match doc.first(Scope::Within(caption), &Selector::Classes(&line_classes)) {
        Some(line) => line,
        None => {
            return None;
        },
    };
    match &doc.elements[line].raw_text {
        Some(text) => Some(strip_prefix(text.as_str(), "\u{a0}\u{b7} ")),
        None => None,
    }
}

fn card_summary(doc: &Document, item: usize) -> (r: String)
    ensures
        r@ == bing_card_summary(doc@, item),
{
    let slide_names = vec!["b_cards2", "slide"];
    assert(strs(slide_names@) =~= seq!["b_cards2"@, "slide"@]);
    let slide_classes = ClassNames::exact(slide_names);
    let slide = match doc.first(Scope::Within(item), &Selector::Classes(&slide_classes)) {
        Some(slide) => slide,
        None => {
            return String::new();
        },
    };
    let block_names = vec!["exsni"];
    assert(strs(block_names@) =~= seq!["exsni"@]);
    let block_classes = ClassNames::exact(block_names);
    let blocks = doc.every(Scope::ChildrenOf(slide), &Selector::Classes(&block_classes));
    if blocks.len() > 1 {
        text_or_empty(&doc.elements[blocks[1]].text)
    } else {
        String::new()
    }
}

/// The address that queries are sent to is a URL text without `?`, and
/// begins with the address of the home page.
proof fn lemma_address()
    ensures
        is_url_text("https://www.bing.com/search"@),
        free_of("https://www.bing.com/search"@, '?'),
        has_prefix("https://www.bing.com/search"@, "https://www.bing.com"@),
{
    reveal_with_fuel(url_text_upto, 30);
    reveal_with_fuel(free_upto, 30);
    reveal_strlit("https://www.bing.com/search");
    reveal_strlit("https://www.bing.com");
    assert("https://www.bing.com/search"@.len() == 27);
    assert(url_text_upto("https://www.bing.com/search"@, 25));
    assert(url_text_upto("https://www.bing.com/search"@, 27));
    lemma_url_text_upto("https://www.bing.com/search"@);
    assert(free_upto("https://www.bing.com/search"@, '?', 25));
    assert(free_upto("https://www.bing.com/search"@, '?', 27));
    lemma_free_upto("https://www.bing.com/search"@, '?', 27);
    assert("https://www.bing.com/search"@.subrange(0, 20) =~= "https://www.bing.com"@);
}

impl Extractor for BingEngine {
    /// The candidates are the result blocks, wherever in the page they
    /// stand: every page has a results section.
    open spec fn candidates(&self, doc: Seq<ElementView>) -> Option<Seq<usize>> {
        Some(every(doc, Scope::Document, SelectorView::Classes(any_of(seq!["b_algo"@]))))
    }

    /// Every result block is a result.
    open spec fn is_organic(&self, element: ElementView) -> bool {
        true
    }

    /// A result block yields a result where it holds a header: the header's
    /// text is the title, and the target of the first link in the header the
    /// URL.
    open spec fn candidate_result(&self, doc: Seq<ElementView>, item: usize) -> Option<ResultView> {
        match first(doc, Scope::Within(item), SelectorView::Classes(any_of(seq!["b_algoheader"@]))) {
            Some(header) => Some(
                ResultView {
                    title: or_empty(doc[header as int].text),
                    url: sanitized(
                        match first(doc, Scope::Within(header), SelectorView::Tag("a"@)) {
                            Some(link) => or_empty(doc[link as int].href),
                            None => Seq::empty(),
                        },
                        &TrackingParams,
                    ),
                    summary: bing_summary(doc, item),
                },
            ),
            None => None,
        }
    }

    fn find_candidates(&self, doc: &Document) -> (r: Option<Vec<usize>>) {
        let block_classes = ClassNames::one("b_algo");
        Some(doc.every(Scope::Document, &Selector::Classes(&block_classes)))
    }

    fn organic(&self, element: &Element) -> (r: bool) {
        true
    }

    fn extract(&self, doc: &Document, item: usize) -> (r: Option<(String, SearchResult)>) {
        let header_classes = ClassNames::one("b_algoheader");
        let header = match doc.first(Scope::Within(item), &Selector::Classes(&header_classes)) {
            Some(header) => header,
            None => {
                return None;
            },
        };
        let title = text_or_empty(&doc.elements[header].text);
        let url = match doc.first(Scope::Within(header), &Selector::Tag("a")) {
            Some(link) => text_or_empty(&doc.elements[link].href),
            None => String::new(),
        };
        let summary = match text_summary(doc, item) {
            Some(text) => text,
            None => card_summary(doc, item),
        };
        Some(SearchResult::new(title, url, summary))
    }
}

impl Engine for BingEngine {
    open spec fn home(&self) -> Seq<char> {
        "https://www.bing.com"@
    }

    open spec fn search_address(&self) -> Seq<char> {
        "https://www.bing.com/search"@
    }

    open spec fn request_params(&self, query: Seq<char>, options: SearchOptions) -> Result<
        Seq<(Seq<char>, Seq<char>)>,
        SearchError,
    > {
        Ok(bing_params(query, options))
    }

    open spec fn request_headers(
        &self,
        fields: Map<Seq<char>, Seq<Seq<char>>>,
        options: SearchOptions,
        agent: nat,
    ) -> Map<Seq<char>, Seq<Seq<char>>> {
        appended(
            appended(
                appended(
                    replaced(
                        replaced(fields, "user-agent"@, no_js_pool()[(agent % 4) as int]),
                        "accept"@,
                        "text/html,application/xhtml+xml,application/xml;q=0.9,*/*;q=0.8"@,
                    ),
                    "content-type"@,
                    "application/x-www-form-urlencoded"@,
                ),
                "cookie"@,
                "_EDGE_V=1; SRCHD=AF=NOFORM; _Rwho=u=d; bngps=s=0; _UR=QS=0&TQS=0; "@,
            ),
            "referer"@,
            "https://google.com/"@,
        )
    }

    open spec fn parsing(&self) -> ParserMode {
        ParserMode::FastButConstrained
    }

    /// The body is parsed as it came.
    open spec fn prepared(&self, body: Seq<char>) -> Seq<char> {
        body
    }

    /// Every response counts as an answer.
    open spec fn verdict(&self, url: FinalUrlView) -> Result<(), SearchError> {
        Ok(())
    }

    proof fn lemma_request(&self, query: Seq<char>, options: SearchOptions) {
        lemma_address();
        let params = bing_params(query, options);
        assert(params[0] == ("q"@, query));
        assert(query.subrange(0, query.len() as int) =~= query);
    }

    fn homepage(&self) -> (r: &'static str) {
        "https://www.bing.com"
    }

    fn url(&self, query: &str, options: &SearchOptions) -> (r: Result<String, SearchError>) {
        let mut params = QueryParams::new();
        params.add("q", query);
        params.add_number("first", options.first_result_index(1));
        params.add("form", "QBLH");
        params.add("safeSearch", options.safe_search.as_lowercase_string());
        match &options.date_time_range {
            Some(range) => {
                params.add("filters", period(range).as_str());
            },
            None => {},
        }
        assert(params@ =~= bing_params(query@, *options));
        Ok(request("https://www.bing.com/search", params))
    }

    fn headers(&self, headers: &mut HeaderMap<HeaderValue>, options: &SearchOptions, agent: usize) {
        proof {
            let accept = "text/html,application/xhtml+xml,application/xml;q=0.9,*/*;q=0.8"@;
            let cookie = "_EDGE_V=1; SRCHD=AF=NOFORM; _Rwho=u=d; bngps=s=0; _UR=QS=0&TQS=0; "@;
            let f0 = header_fields(*headers);
            let f1 = replaced(f0, "user-agent"@, no_js_pool()[(agent % 4) as int]);
            let f2 = replaced(f1, "accept"@, accept);
            let f3 = appended(f2, "content-type"@, "application/x-www-form-urlencoded"@);
            let f4 = appended(f3, "cookie"@, cookie);
            lemma_room(f0, "user-agent"@, no_js_pool()[(agent % 4) as int], 5);
            lemma_room(f1, "accept"@, accept, 4);
            lemma_room(f2, "content-type"@, "application/x-www-form-urlencoded"@, 3);
            lemma_room(f3, "cookie"@, cookie, 2);
        }
        insert_header(headers, "user-agent", UserAgent::random_no_js(agent));
        insert_header(headers, "accept", accept_html());
        append_header(headers, "content-type", form_urlencoded());
        append_header(headers, "cookie", bing_region_cookie());
        append_header(headers, "referer", referer_google());
    }

    fn parser_mode(&self) -> (r: ParserMode) {
        ParserMode::FastButConstrained
    }

    fn prepare(&self, body: String) -> (r: String) {
        body
    }

    fn validate_final_url(&self, url: &FinalUrl) -> (r: Result<(), SearchError>) {
        Ok(())
    }

    fn parse(&self, doc: &Document) -> (r: Result<Vec<(String, SearchResult)>, SearchError>) {
        extract_results(self, doc)
    }
}

} // verus!
