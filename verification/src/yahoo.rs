//! The adapter for Yahoo.

use vstd::prelude::*;
use vstd::string::*;
use http::{HeaderMap, HeaderValue};
use crate::agent::{no_js_pool, UserAgent};
use crate::document::{
    any_of, every, first, ClassNames, Document, Element, ElementView, Scope, Selector, SelectorView,
};
use crate::encode::{
    free_upto, is_url_text, lemma_free_upto, lemma_url_text_upto, url_text_upto, QueryParams,
};
use crate::engine::{request, extract_results, or_empty, text_or_empty, Engine, Extractor, ParserMode};
use crate::headers::{
    append_header, appended, form_urlencoded, header_fields, insert_header, lemma_room,
    referer_google, replaced,
};
use crate::registry::TaggedEngine;
use crate::response::{FinalUrl, FinalUrlView};
use crate::sanitize::{free_of, sanitized};
use crate::search::{
    ResultView, SafeSearch, SearchError, SearchOptions, SearchResult, TrackingParams,
};
use crate::text::{
    decimal, find, first_occurrence, from_range, has_prefix, lemma_first_occurrence, occurs_at,
    to_chars,
};
use crate::time::{closest_preset, durations, DateTimeRange};

verus! {

/// An engine which reads search results from Yahoo.
pub struct YahooEngine;

impl YahooEngine {
    /// Creates a new Yahoo engine.
    pub fn new() -> (r: TaggedEngine)
        ensures
            r == TaggedEngine::Yahoo(YahooEngine),
    {
        TaggedEngine::Yahoo(YahooEngine)
    }
}

/// The periods that Yahoo can restrict a search to, each with its length in
/// seconds and the letter that names it: the past day, week and month.
pub open spec fn yahoo_presets() -> Seq<(i64, &'static str)> {
    seq![(86_400i64, "d"), (604_800i64, "w"), (2_592_000i64, "m")]
}

/// The letter of the period closest in length to a range of dates.
pub open spec fn yahoo_period(range: DateTimeRange) -> Seq<char> {
    yahoo_presets()[closest_preset(range.duration(), durations(yahoo_presets()))].1@
}

/// The parameter that sets the safe-search level.
pub open spec fn yahoo_safe_search(level: SafeSearch) -> (Seq<char>, Seq<char>) {
    match level {
        SafeSearch::Off => ("v"@, "1"@),
        SafeSearch::Moderate => ("vm"@, "p"@),
        SafeSearch::Strict => ("vm"@, "r"@),
    }
}

/// The parameters of a request. Results are counted from 1, ten to a page;
/// a range of dates adds the letter of the period that comes closest to it.
pub open spec fn yahoo_params(query: Seq<char>, options: SearchOptions) -> Seq<
    (Seq<char>, Seq<char>),
> {
    seq![
        ("p"@, query),
        ("b"@, decimal(options.first_result(1))),
        ("nocache"@, "1"@),
        ("nojs"@, "1"@),
        yahoo_safe_search(options.safe_search),
    ] + match options.date_time_range {
        Some(range) => seq![("btf"@, yahoo_period(range))],
        None => Seq::empty(),
    }
}

fn period(range: &DateTimeRange) -> (r: &'static str)
    ensures
        r@ == yahoo_period(*range),
{
    let presets: Vec<(i64, &'static str)> = vec![
        (86_400i64, "d"),
        (604_800i64, "w"),
        (2_592_000i64, "m"),
    ];
    assert(presets@ =~= yahoo_presets());
    range.find_closest_preset(presets.as_slice())
}

/// The address that a link of Yahoo's leads to in the end. Yahoo wraps the
/// target of a result in a redirection of its own, in which the target
/// stands between the markers `RU=` and `RK=2`: of such a link, what stands
/// between the first `RU=` and the first `RK=2`. A link without either
/// marker, or in which the second does not come behind the first, is its
/// own target.
pub open spec fn unwrapped(url: Seq<char>) -> Seq<char> {
    match (first_occurrence(url, "RU="@, 0), first_occurrence(url, "RK=2"@, 0)) {
        (Some(start), Some(end)) => if start + 3 <= end {
            url.subrange(start + 3, end)
        } else {
            url
        },
        _ => url,
    }
}

/// The address that a link of Yahoo's leads to in the end.
pub fn clean_url(input_url: String) -> (r: String)
    ensures
        r@ == unwrapped(input_url@),
{
    let chars = to_chars(input_url.as_str());
    let start_marker = to_chars("RU=");
    let end_marker = to_chars("RK=2");
    let start = match find(&chars, &start_marker) {
        Some(start) => start,
        None => {
            return input_url;
        },
    };
    let end = match find(&chars, &end_marker) {
        Some(end) => end,
        None => {
            return input_url;
        },
    };
    proof {
        reveal_strlit("RU=");
        lemma_first_occurrence(chars@, start_marker@, 0);
        lemma_first_occurrence(chars@, end_marker@, 0);
        assert(start_marker@.len() == 3);
        assert(occurs_at(chars@, start_marker@, start as int));
        assert(occurs_at(chars@, end_marker@, end as int));
    }
    let length = chars.len();
    assert(start + 3 <= length);
    if start + 3 <= end {
        from_range(&chars, start + 3, end)
    } else {
        input_url
    }
}

/// The address that queries are sent to is a URL text without `?`, and
/// begins with the address of the home page.
proof fn lemma_address()
    ensures
        is_url_text("https://search.yahoo.com/search"@),
        free_of("https://search.yahoo.com/search"@, '?'),
        has_prefix("https://search.yahoo.com/search"@, "https://search.yahoo.com/search"@),
{
    reveal_with_fuel(url_text_upto, 30);
    reveal_with_fuel(free_upto, 30);
    reveal_strlit("https://search.yahoo.com/search");
    reveal_strlit("https://search.yahoo.com/search");
    assert("https://search.yahoo.com/search"@.len() == 31);
    assert(url_text_upto("https://search.yahoo.com/search"@, 25));
    assert(url_text_upto("https://search.yahoo.com/search"@, 31));
    lemma_url_text_upto("https://search.yahoo.com/search"@);
    assert(free_upto("https://search.yahoo.com/search"@, '?', 25));
    assert(free_upto("https://search.yahoo.com/search"@, '?', 31));
    lemma_free_upto("https://search.yahoo.com/search"@, '?', 31);
    assert("https://search.yahoo.com/search"@.subrange(0, 31) =~= "https://search.yahoo.com/search"@);
}

impl Extractor for YahooEngine {
    /// The candidates are the result blocks inside the middle column; a page
    /// without that column has no results section.
    open spec fn candidates(&self, doc: Seq<ElementView>) -> Option<Seq<usize>> {
        match first(doc, Scope::Document, SelectorView::Classes(any_of(seq!["searchCenterMiddle"@]))) {
            Some(column) => Some(
                every(doc, Scope::Within(column), SelectorView::Classes(any_of(seq!["dd"@]))),
            ),
            None => None,
        }
    }

    /// A block is a result unless it offers other searches to try.
    open spec fn is_organic(&self, element: ElementView) -> bool {
        !any_of(seq!["AlsoTry_M"@]).matches(element.classes)
    }

    /// A result block yields a result where it holds a title: the raw text
    /// of the title is the title, and the address behind its target the URL.
    open spec fn candidate_result(&self, doc: Seq<ElementView>, item: usize) -> Option<ResultView> {
        match first(doc, Scope::Within(item), SelectorView::Classes(any_of(seq!["s-title"@]))) {
            Some(title) => Some(
                ResultView {
                    title: or_empty(doc[title as int].raw_text),
                    url: sanitized(
                        match doc[title as int].href {
                            Some(href) => unwrapped(href),
                            None => Seq::empty(),
                        },
                        &TrackingParams,
                    ),
                    summary: match first(
                        doc,
                        Scope::Within(item),
                        SelectorView::Classes(any_of(seq!["s-desc"@])),
                    ) {
                        Some(s) => or_empty(doc[s as int].text),
                        None => Seq::empty(),
                    },
                },
            ),
            None => None,
        }
    }

    fn find_candidates(&self, doc: &Document) -> (r: Option<Vec<usize>>) {
        let column_classes = ClassNames::one("searchCenterMiddle");
        match doc.first(Scope::Document, &Selector::Classes(&column_classes)) {
            Some(column) => {
                let block_classes = ClassNames::one("dd");
                Some(doc.every(Scope::Within(column), &Selector::Classes(&block_classes)))
            },
            None => None,
        }
    }

    fn organic(&self, element: &Element) -> (r: bool) {
        let blocked = ClassNames::one("AlsoTry_M");
        !blocked.matches(&element.classes)
    }

    fn extract(&self, doc: &Document, item: usize) -> (r: Option<(String, SearchResult)>) {
        let title_classes = ClassNames::one("s-title");
        let title = match doc.first(Scope::Within(item), &Selector::Classes(&title_classes)) {
            Some(title) => title,
            None => {
                return None;
            },
        };
        let text = text_or_empty(&doc.elements[title].raw_text);
        let url = match &doc.elements[title].href {
            Some(href) => clean_url(href.clone()),
            None => String::new(),
        };
        let summary_classes = ClassNames::one("s-desc");
        let summary = match doc.first(Scope::Within(item), &Selector::Classes(&summary_classes)) {
            Some(s) => text_or_empty(&doc.elements[s].text),
            None => String::new(),
        };
        Some(SearchResult::new(text, url, summary))
    }
}

impl Engine for YahooEngine {
    open spec fn home(&self) -> Seq<char> {
        "https://search.yahoo.com/search"@
    }

    open spec fn search_address(&self) -> Seq<char> {
        "https://search.yahoo.com/search"@
    }

    open spec fn request_params(&self, query: Seq<char>, options: SearchOptions) -> Result<
        Seq<(Seq<char>, Seq<char>)>,
        SearchError,
    > {
        Ok(yahoo_params(query, options))
    }

    open spec fn request_headers(
        &self,
        fields: Map<Seq<char>, Seq<Seq<char>>>,
        options: SearchOptions,
        agent: nat,
    ) -> Map<Seq<char>, Seq<Seq<char>>> {
        appended(
            replaced(
                replaced(fields, "user-agent"@, no_js_pool()[(agent % 4) as int]),
                "accept"@,
                "application/x-www-form-urlencoded"@,
            ),
            "referer"@,
            "https://google.com/"@,
        )
    }

    open spec fn parsing(&self) -> ParserMode {
        ParserMode::FastButConstrained
    }

    /// The body is parsed as it came.
    open spec fn prepared(&self, body: Seq<char>) -> Seq<char> {
        body
    }

    /// Every response counts as an answer.
    open spec fn verdict(&self, url: FinalUrlView) -> Result<(), SearchError> {
        Ok(())
    }

    proof fn lemma_request(&self, query: Seq<char>, options: SearchOptions) {
        lemma_address();
        let params = yahoo_params(query, options);
        assert(params[0] == ("p"@, query));
        assert(query.subrange(0, query.len() as int) =~= query);
    }

    fn homepage(&self) -> (r: &'static str) {
        "https://search.yahoo.com/search"
    }

    fn url(&self, query: &str, options: &SearchOptions) -> (r: Result<String, SearchError>) {
        let mut params = QueryParams::new();
        params.add("p", query);
        params.add_number("b", options.first_result_index(1));
        params.add("nocache", "1");
        params.add("nojs", "1");
        match options.safe_search {
            SafeSearch::Off => params.add("v", "1"),
            SafeSearch::Moderate => params.add("vm", "p"),
            SafeSearch::Strict => params.add("vm", "r"),
        }
        match &options.date_time_range {
            Some(range) => {
                params.add("btf", period(range));
            },
            None => {},
        }
        assert(params@ =~= yahoo_params(query@, *options));
        Ok(request("https://search.yahoo.com/search", params))
    }

    fn headers(&self, headers: &mut HeaderMap<HeaderValue>, options: &SearchOptions, agent: usize) {
        proof {
            let f0 = header_fields(*headers);
            let f1 = replaced(f0, "user-agent"@, no_js_pool()[(agent % 4) as int]);
            lemma_room(f0, "user-agent"@, no_js_pool()[(agent % 4) as int], 5);
            lemma_room(f1, "accept"@, "application/x-www-form-urlencoded"@, 4);
        }
        insert_header(headers, "user-agent", UserAgent::random_no_js(agent));
        insert_header(headers, "accept", form_urlencoded());
        append_header(headers, "referer", referer_google());
    }

    fn parser_mode(&self) -> (r: ParserMode) {
        ParserMode::FastButConstrained
    }

    fn prepare(&self, body: String) -> (r: String) {
        body
    }

    fn validate_final_url(&self, url: &FinalUrl) -> (r: Result<(), SearchError>) {
        Ok(())
    }

    fn parse(&self, doc: &Document) -> (r: Result<Vec<(String, SearchResult)>, SearchError>) {
        extract_results(self, doc)
    }
}

} // verus!
