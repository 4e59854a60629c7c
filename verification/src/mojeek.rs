//! The adapter for Mojeek.

use vstd::prelude::*;
use vstd::string::*;
use http::{HeaderMap, HeaderValue};
use crate::agent::{no_js_pool, UserAgent};
use crate::document::{
    any_of, every, first, ClassNames, Document, Element, ElementView, Scope, Selector, SelectorView,
};
use crate::encode::{
    free_upto, is_url_text, lemma_free_upto, lemma_url_text_upto, repeated, url_text_upto,
    QueryParams,
};
use crate::engine::{request, extract_results, or_empty, text_or_empty, Engine, Extractor, ParserMode};
use crate::headers::{
    accept_html, append_header, appended, header_fields, insert_header, lemma_room, referer_google,
    replaced,
};
use crate::registry::TaggedEngine;
use crate::response::{FinalUrl, FinalUrlView};
use crate::sanitize::{free_of, sanitized};
use crate::search::{ResultView, SearchError, SearchOptions, SearchResult, TrackingParams};
use crate::text::{
    decimal, has_prefix, padded_decimal, push_padded_decimal, push_signed_padded_decimal,
    signed_padded_decimal, strs,
};
use crate::time::DateTimeRange;

verus! {

/// An engine which reads search results from Mojeek.
pub struct MojeekEngine;

impl MojeekEngine {
    /// Creates a new Mojeek engine.
    pub fn new() -> (r: TaggedEngine)
        ensures
            r == TaggedEngine::Mojeek(MojeekEngine),
    {
        TaggedEngine::Mojeek(MojeekEngine)
    }
}

/// The words that restrict a query to a range of dates: they follow the
/// query text, each date as four digits of the year and two each of the
/// month and the day.
pub open spec fn mojeek_period(range: Option<DateTimeRange>) -> Seq<char> {
    match range {
        Some(range) => " since:"@ + signed_padded_decimal(range.start.date().0, 4) + padded_decimal(
            range.start.date().1 as nat,
            2,
        ) + padded_decimal(range.start.date().2 as nat, 2) + " before:"@ + signed_padded_decimal(
            range.end.date().0,
            4,
        ) + padded_decimal(range.end.date().1 as nat, 2) + padded_decimal(
            range.end.date().2 as nat,
            2,
        ),
        None => Seq::empty(),
    }
}

/// The other search services whose results Mojeek is asked to offer, each
/// named in a parameter `qss` of its own.
pub open spec fn mojeek_sources() -> Seq<Seq<char>> {
    seq![
        "Bing"@,
        "Brave"@,
        "DuckDuckGo"@,
        "Ecosia"@,
        "Google"@,
        "Lilo"@,
        "Metager"@,
        "Qwant"@,
        "Startpage"@,
        "Swisscows"@,
        "Yandex"@,
        "Yep"@,
        "You"@,
    ]
}

/// The parameters of a request. Results are counted from 1, ten to a page;
/// the words for a range of dates travel behind the text of the query.
pub open spec fn mojeek_params(query: Seq<char>, options: SearchOptions) -> Seq<
    (Seq<char>, Seq<char>),
> {
    seq![
        ("q"@, query + mojeek_period(options.date_time_range)),
        ("t"@, decimal(options.first_result(1))),
        ("safe"@, decimal(if options.safe_search.level() == 0 { 0 } else { 1 })),
        ("theme"@, "dark"@),
        ("arc"@, "none"@),
        ("date"@, "1"@),
        ("cdate"@, "1"@),
        ("tlen"@, "100"@),
        ("ref"@, "1"@),
        ("hp"@, "minimal"@),
        ("lb"@, "en"@),
    ] + repeated("qss"@, mojeek_sources())
}

fn period(range: &Option<DateTimeRange>) -> (r: String)
    ensures
        r@ == mojeek_period(*range),
{
    let mut r = String::new();
    match range {
        Some(range) => {
            r.append(" since:");
            push_signed_padded_decimal(&mut r, range.start.year() as i64, 4);
            push_padded_decimal(&mut r, range.start.month() as u128, 2);
            push_padded_decimal(&mut r, range.start.day() as u128, 2);
            r.append(" before:");
            push_signed_padded_decimal(&mut r, range.end.year() as i64, 4);
            push_padded_decimal(&mut r, range.end.month() as u128, 2);
            push_padded_decimal(&mut r, range.end.day() as u128, 2);
            assert(r@ =~= mojeek_period(Some(*range)));
        },
        None => {},
    }
    r
}

/// The address that queries are sent to is a URL text without `?`, and
/// begins with the address of the home page.
proof fn lemma_address()
    ensures
        is_url_text("https://www.mojeek.com/search"@),
        free_of("https://www.mojeek.com/search"@, '?'),
        has_prefix("https://www.mojeek.com/search"@, "https://www.mojeek.com"@),
{
    reveal_with_fuel(url_text_upto, 30);
    reveal_with_fuel(free_upto, 30);
    reveal_strlit("https://www.mojeek.com/search");
    reveal_strlit("https://www.mojeek.com");
    assert("https://www.mojeek.com/search"@.len() == 29);
    assert(url_text_upto("https://www.mojeek.com/search"@, 25));
    assert(url_text_upto("https://www.mojeek.com/search"@, 29));
    lemma_url_text_upto("https://www.mojeek.com/search"@);
    assert(free_upto("https://www.mojeek.com/search"@, '?', 25));
    assert(free_upto("https://www.mojeek.com/search"@, '?', 29));
    lemma_free_upto("https://www.mojeek.com/search"@, '?', 29);
    assert("https://www.mojeek.com/search"@.subrange(0, 22) =~= "https://www.mojeek.com"@);
}

impl Extractor for MojeekEngine {
    /// The candidates are the children of the results list; a page without
    /// that list has no results section.
    open spec fn candidates(&self, doc: Seq<ElementView>) -> Option<Seq<usize>> {
        match first(doc, Scope::Document, SelectorView::Classes(any_of(seq!["results-standard"@]))) {
            Some(list) => Some(every(doc, Scope::ChildrenOf(list), SelectorView::Any)),
            None => None,
        }
    }

    /// Every child of the list is a result.
    open spec fn is_organic(&self, element: ElementView) -> bool {
        true
    }

    fn find_candidates(&self, doc: &Document) -> (r: Option<Vec<usize>>) {
        let list_classes = ClassNames::one("results-standard");
        match doc.first(Scope::Document, &Selector::Classes(&list_classes)) {
            Some(list) => Some(doc.every(Scope::ChildrenOf(list), &Selector::Any)),
            None => None,
        }
    }

    fn organic(&self, element: &Element) -> (r: bool) {
        true
    }

    /// A child of the results list yields a result where it has a heading
    /// `h2` among its children and the heading a title link among its own:
    /// the link's text is the title and its target the URL; the summary is
    /// the text of the child marked as such, where there is one.
    open spec fn candidate_result(&self, doc: Seq<ElementView>, item: usize) -> Option<ResultView> {
        match first(doc, Scope::ChildrenOf(item), SelectorView::Tag("h2"@)) {
            Some(heading) => match first(
                doc,
                Scope::ChildrenOf(heading),
                SelectorView::Classes(any_of(seq!["title"@])),
            ) {
                Some(link) => Some(
                    ResultView {
                        title: or_empty(doc[link as int].text),
                        url: sanitized(or_empty(doc[link as int].href), &TrackingParams),
                        summary: match first(
                            doc,
                            Scope::ChildrenOf(item),
                            SelectorView::Classes(any_of(seq!["s"@])),
                        ) {
                            Some(s) => or_empty(doc[s as int].text),
                            None => Seq::empty(),
                        },
                    },
                ),
                None => None,
            },
            None => None,
        }
    }

    fn extract(&self, doc: &Document, item: usize) -> (r: Option<(String, SearchResult)>) {
        let heading = match doc.first(Scope::ChildrenOf(item), &Selector::Tag("h2")) {
            Some(heading) => heading,
            None => {
                return None;
            },
        };
        let title_classes = ClassNames::one("title");
        let link = match doc.first(Scope::ChildrenOf(heading), &Selector::Classes(&title_classes)) {
            Some(link) => link,
            None => {
                return None;
            },
        };
        let title = text_or_empty(&doc.elements[link].text);
        let url = text_or_empty(&doc.elements[link].href);
        let summary_classes = ClassNames::one("s");
        let summary = match doc.first(Scope::ChildrenOf(item), &Selector::Classes(&summary_classes)) {
            Some(s) => text_or_empty(&doc.elements[s].text),
            None => String::new(),
        };
        Some(SearchResult::new(title, url, summary))
    }
}

impl Engine for MojeekEngine {
    open spec fn home(&self) -> Seq<char> {
        "https://www.mojeek.com"@
    }

    open spec fn search_address(&self) -> Seq<char> {
        "https://www.mojeek.com/search"@
    }

    open spec fn request_params(&self, query: Seq<char>, options: SearchOptions) -> Result<
        Seq<(Seq<char>, Seq<char>)>,
        SearchError,
    > {
        Ok(mojeek_params(query, options))
    }

    open spec fn parsing(&self) -> ParserMode {
        ParserMode::FastButConstrained
    }

    /// The body is parsed as it came.
    open spec fn prepared(&self, body: Seq<char>) -> Seq<char> {
        body
    }

    open spec fn request_headers(
        &self,
        fields: Map<Seq<char>, Seq<Seq<char>>>,
        options: SearchOptions,
        agent: nat,
    ) -> Map<Seq<char>, Seq<Seq<char>>> {
        appended(
            replaced(
                replaced(fields, "user-agent"@, no_js_pool()[(agent % 4) as int]),
                "accept"@,
                "text/html,application/xhtml+xml,application/xml;q=0.9,*/*;q=0.8"@,
            ),
            "referer"@,
            "https://google.com/"@,
        )
    }

    /// Every response counts as an answer.
    open spec fn verdict(&self, url: FinalUrlView) -> Result<(), SearchError> {
        Ok(())
    }

    proof fn lemma_request(&self, query: Seq<char>, options: SearchOptions) {
        lemma_address();
        let params = mojeek_params(query, options);
        let period = mojeek_period(options.date_time_range);
        assert(params[0] == ("q"@, query + period));
        assert((query + period).subrange(0, query.len() as int) =~= query);
    }

    fn homepage(&self) -> (r: &'static str) {
        "https://www.mojeek.com"
    }

    fn url(&self, query: &str, options: &SearchOptions) -> (r: Result<String, SearchError>) {
        let mut text = String::from_str(query);
        text.append(period(&options.date_time_range).as_str());
        let sources = vec![
            "Bing",
            "Brave",
            "DuckDuckGo",
            "Ecosia",
            "Google",
            "Lilo",
            "Metager",
            "Qwant",
            "Startpage",
            "Swisscows",
            "Yandex",
            "Yep",
            "You",
        ];
        assert(strs(sources@) =~= mojeek_sources());
        let mut params = QueryParams::new();
        params.add("q", text.as_str());
        params.add_number("t", options.first_result_index(1));
        params.add_number("safe", options.safe_search.as_u8_bool() as u128);
        params.add("theme", "dark");
        params.add("arc", "none");
        params.add("date", "1");
        params.add("cdate", "1");
        params.add("tlen", "100");
        params.add("ref", "1");
        params.add("hp", "minimal");
        params.add("lb", "en");
        params.add_list("qss", &sources);
        assert(params@ =~= mojeek_params(query@, *options));
        Ok(request("https://www.mojeek.com/search", params))
    }

    fn headers(&self, headers: &mut HeaderMap<HeaderValue>, options: &SearchOptions, agent: usize) {
        proof {
            let f0 = header_fields(*headers);
            let f1 = replaced(f0, "user-agent"@, no_js_pool()[(agent % 4) as int]);
            lemma_room(f0, "user-agent"@, no_js_pool()[(agent % 4) as int], 5);
            lemma_room(
                f1,
                "accept"@,
                "text/html,application/xhtml+xml,application/xml;q=0.9,*/*;q=0.8"@,
                4,
            );
        }
        insert_header(headers, "user-agent", UserAgent::random_no_js(agent));
        insert_header(headers, "accept", accept_html());
        append_header(headers, "referer", referer_google());
    }

    fn parser_mode(&self) -> (r: ParserMode) {
        ParserMode::FastButConstrained
    }

    fn prepare(&self, body: String) -> (r: String) {
        body
    }

    fn validate_final_url(&self, url: &FinalUrl) -> (r: Result<(), SearchError>) {
        Ok(())
    }

    fn parse(&self, doc: &Document) -> (r: Result<Vec<(String, SearchResult)>, SearchError>) {
        extract_results(self, doc)
    }
}

} // verus!
