//! The adapter for Yandex.

use vstd::prelude::*;
use vstd::string::*;
use http::{HeaderMap, HeaderValue};
use crate::agent::{pool, UserAgent};
use crate::document::{
    any_of, every, first, ClassNames, Document, Element, ElementView, Scope, Selector, SelectorView,
};
use crate::encode::{
    free_upto, is_url_text, lemma_free_upto, lemma_url_text_upto, url_text_upto, QueryParams,
};
use crate::engine::{request, extract_results, or_empty, text_or_empty, Engine, Extractor, ParserMode};
use crate::headers::{
    append_header, appended, form_urlencoded, header_fields, insert_header, lemma_room,
    referer_google, replaced,
};
use crate::registry::TaggedEngine;
use crate::response::{FinalUrl, FinalUrlView};
use crate::sanitize::{free_of, sanitized};
use crate::search::{
    ResultView, SafeSearch, SearchError, SearchOptions, SearchResult, TrackingParams,
};
use crate::text::{decimal, has_prefix, signed_decimal, starts_with};
use crate::time::DateTimeRange;

verus! {

/// An engine which reads search results from Yandex.
pub struct YandexEngine;

impl YandexEngine {
    /// Creates a new Yandex engine.
    pub fn new() -> (r: TaggedEngine)
        ensures
            r == TaggedEngine::Yandex(YandexEngine),
    {
        TaggedEngine::Yandex(YandexEngine)
    }
}

/// The parameters that restrict a search to a range of dates, both ends
/// given as day, month and year.
pub open spec fn yandex_period(range: DateTimeRange) -> Seq<(Seq<char>, Seq<char>)> {
    seq![
        ("constraintid"@, "0"@),
        ("within"@, "777"@),
        ("from_day"@, decimal(range.start.date().2 as nat)),
        ("from_month"@, decimal(range.start.date().1 as nat)),
        ("from_year"@, signed_decimal(range.start.date().0)),
        ("to_day"@, decimal(range.end.date().2 as nat)),
        ("to_month"@, decimal(range.end.date().1 as nat)),
        ("to_year"@, signed_decimal(range.end.date().0)),
    ]
}

/// The parameters of a request to Yandex's site search. Pages are counted
/// from 0; a range of dates adds its parameters behind the others.
pub open spec fn yandex_params(query: Seq<char>, options: SearchOptions) -> Seq<
    (Seq<char>, Seq<char>),
> {
    seq![
        ("text"@, query),
        ("p"@, decimal(options.page_num as nat)),
        ("tmpl_version"@, "releases"@),
        ("web"@, "1"@),
        ("frame"@, "1"@),
        ("searchid"@, "3131712"@),
    ] + match options.date_time_range {
        Some(range) => yandex_period(range),
        None => Seq::empty(),
    }
}

fn add_period(params: &mut QueryParams, range: &DateTimeRange)
    ensures
        final(params)@ == old(params)@ + yandex_period(*range),
{
    params.add("constraintid", "0");
    params.add("within", "777");
    params.add_number("from_day", range.start.day() as u128);
    params.add_number("from_month", range.start.month() as u128);
    params.add_signed_number("from_year", range.start.year() as i64);
    params.add_number("to_day", range.end.day() as u128);
    params.add_number("to_month", range.end.month() as u128);
    params.add_signed_number("to_year", range.end.year() as i64);
    assert(params@ =~= old(params)@ + yandex_period(*range));
}

/// The address that queries are sent to is a URL text without `?`, and
/// begins with the address of the home page.
proof fn lemma_address()
    ensures
        is_url_text("https://yandex.com/search/site/"@),
        free_of("https://yandex.com/search/site/"@, '?'),
        has_prefix("https://yandex.com/search/site/"@, "https://yandex.com"@),
{
    reveal_with_fuel(url_text_upto, 30);
    reveal_with_fuel(free_upto, 30);
    reveal_strlit("https://yandex.com/search/site/");
    reveal_strlit("https://yandex.com");
    assert("https://yandex.com/search/site/"@.len() == 31);
    assert(url_text_upto("https://yandex.com/search/site/"@, 25));
    assert(url_text_upto("https://yandex.com/search/site/"@, 31));
    lemma_url_text_upto("https://yandex.com/search/site/"@);
    assert(free_upto("https://yandex.com/search/site/"@, '?', 25));
    assert(free_upto("https://yandex.com/search/site/"@, '?', 31));
    lemma_free_upto("https://yandex.com/search/site/"@, '?', 31);
    assert("https://yandex.com/search/site/"@.subrange(0, 18) =~= "https://yandex.com"@);
}

impl Extractor for YandexEngine {
    /// The candidates are the cards inside the list of results; a page
    /// without that list has no results section.
    open spec fn candidates(&self, doc: Seq<ElementView>) -> Option<Seq<usize>> {
        match first(doc, Scope::Document, SelectorView::Classes(any_of(seq!["b-serp-list"@]))) {
            Some(list) => Some(
                every(doc, Scope::Within(list), SelectorView::Classes(any_of(seq!["b-serp-item"@]))),
            ),
            None => None,
        }
    }

    /// Every card is a result.
    open spec fn is_organic(&self, element: ElementView) -> bool {
        true
    }

    fn find_candidates(&self, doc: &Document) -> (r: Option<Vec<usize>>) {
        let list_classes = ClassNames::one("b-serp-list");
        match doc.first(Scope::Document, &Selector::Classes(&list_classes)) {
            Some(list) => {
                let item_classes = ClassNames::one("b-serp-item");
                Some(doc.every(Scope::Within(list), &Selector::Classes(&item_classes)))
            },
            None => None,
        }
    }

    fn organic(&self, element: &Element) -> (r: bool) {
        true
    }

    /// A result card yields a result where it holds a title link: the link's
    /// text is the title and its target the URL; the summary is the text of
    /// the card's description, where it has one.
    open spec fn candidate_result(&self, doc: Seq<ElementView>, item: usize) -> Option<ResultView> {
        match first(
            doc,
            Scope::Within(item),
            SelectorView::Classes(any_of(seq!["b-serp-item__title-link"@])),
        ) {
            Some(link) => Some(
                ResultView {
                    title: or_empty(doc[link as int].text),
                    url: sanitized(or_empty(doc[link as int].href), &TrackingParams),
                    summary: match first(
                        doc,
                        Scope::Within(item),
                        SelectorView::Classes(any_of(seq!["b-serp-item__text"@])),
                    ) {
                        Some(s) => or_empty(doc[s as int].text),
                        None => Seq::empty(),
                    },
                },
            ),
            None => None,
        }
    }

    fn extract(&self, doc: &Document, item: usize) -> (r: Option<(String, SearchResult)>) {
        let title_classes = ClassNames::one("b-serp-item__title-link");
        let link = match doc.first(Scope::Within(item), &Selector::Classes(&title_classes)) {
            Some(link) => link,
            None => {
                return None;
            },
        };
        let title = text_or_empty(&doc.elements[link].text);
        let url = text_or_empty(&doc.elements[link].href);
        let summary_classes = ClassNames::one("b-serp-item__text");
        let summary = match doc.first(Scope::Within(item), &Selector::Classes(&summary_classes)) {
            Some(s) => text_or_empty(&doc.elements[s].text),
            None => String::new(),
        };
        Some(SearchResult::new(title, url, summary))
    }
}

impl Engine for YandexEngine {
    open spec fn home(&self) -> Seq<char> {
        "https://yandex.com"@
    }

    open spec fn search_address(&self) -> Seq<char> {
        "https://yandex.com/search/site/"@
    }

    /// Yandex does not serve the strictest safe-search level; every other
    /// request has its parameters.
    open spec fn request_params(&self, query: Seq<char>, options: SearchOptions) -> Result<
        Seq<(Seq<char>, Seq<char>)>,
        SearchError,
    > {
        if options.safe_search == SafeSearch::Strict {
            Err(SearchError::SafeSearchRestriction)
        } else {
            Ok(yandex_params(query, options))
        }
    }

    open spec fn parsing(&self) -> ParserMode {
        ParserMode::FastButConstrained
    }

    /// The body is parsed as it came.
    open spec fn prepared(&self, body: Seq<char>) -> Seq<char> {
        body
    }

    open spec fn request_headers(
        &self,
        fields: Map<Seq<char>, Seq<Seq<char>>>,
        options: SearchOptions,
        agent: nat,
    ) -> Map<Seq<char>, Seq<Seq<char>>> {
        appended(
            replaced(
                replaced(fields, "user-agent"@, pool()[(agent % 4) as int]),
                "accept"@,
                "application/x-www-form-urlencoded"@,
            ),
            "referer"@,
            "https://google.com/"@,
        )
    }

    /// A response that came from a path under `/showcaptcha` is a challenge.
    open spec fn verdict(&self, url: FinalUrlView) -> Result<(), SearchError> {
        if has_prefix(url.path, "/showcaptcha"@) {
            Err(SearchError::Captcha)
        } else {
            Ok(())
        }
    }

    proof fn lemma_request(&self, query: Seq<char>, options: SearchOptions) {
        lemma_address();
        let params = yandex_params(query, options);
        assert(params[0] == ("text"@, query));
        assert(query.subrange(0, query.len() as int) =~= query);
    }

    fn homepage(&self) -> (r: &'static str) {
        "https://yandex.com"
    }

    fn url(&self, query: &str, options: &SearchOptions) -> (r: Result<String, SearchError>) {
        if options.safe_search.as_incrementing_usize() == 2 {
            return Err(SearchError::SafeSearchRestriction);
        }
        let mut params = QueryParams::new();
        params.add("text", query);
        params.add_number("p", options.page_num as u128);
        params.add("tmpl_version", "releases");
        params.add("web", "1");
        params.add("frame", "1");
        params.add("searchid", "3131712");
        match &options.date_time_range {
            Some(range) => {
                add_period(&mut params, range);
            },
            None => {},
        }
        assert(params@ =~= yandex_params(query@, *options));
        Ok(request("https://yandex.com/search/site/", params))
    }

    fn headers(&self, headers: &mut HeaderMap<HeaderValue>, options: &SearchOptions, agent: usize) {
        proof {
            let f0 = header_fields(*headers);
            let f1 = replaced(f0, "user-agent"@, pool()[(agent % 4) as int]);
            let f2 = replaced(f1, "accept"@, "application/x-www-form-urlencoded"@);
            lemma_room(f0, "user-agent"@, pool()[(agent % 4) as int], 5);
            lemma_room(f1, "accept"@, "application/x-www-form-urlencoded"@, 4);
        }
        insert_header(headers, "user-agent", UserAgent::random(agent));
        insert_header(headers, "accept", form_urlencoded());
        append_header(headers, "referer", referer_google());
    }

    fn parser_mode(&self) -> (r: ParserMode) {
        ParserMode::FastButConstrained
    }

    fn prepare(&self, body: String) -> (r: String) {
        body
    }

    fn validate_final_url(&self, url: &FinalUrl) -> (r: Result<(), SearchError>) {
        if starts_with(url.path.as_str(), "/showcaptcha") {
            Err(SearchError::Captcha)
        } else {
            Ok(())
        }
    }

    fn parse(&self, doc: &Document) -> (r: Result<Vec<(String, SearchResult)>, SearchError>) {
        extract_results(self, doc)
    }
}

} // verus!
