//! The adapter for Brave Search.

use vstd::prelude::*;
use vstd::string::*;
use http::{HeaderMap, HeaderValue};
use crate::agent::{no_js_pool, UserAgent};
use crate::document::{
    any_of, attribute_value, every, first, ClassNames, Document, Element, ElementView, Scope,
    Selector, SelectorView,
};
use crate::encode::{
    free_upto, is_url_text, lemma_free_upto, lemma_url_text_upto, url_text_upto, QueryParams,
};
use crate::engine::{request, 
    extract_results, or_empty, text_or_empty, trim_start, trimmed_start, Engine, Extractor,
    ParserMode,
};
use crate::headers::{
    accept_all, append_header, appended, form_urlencoded, header_fields, insert_header, lemma_room,
    referer_google, replaced, safe_search_cookie,
};
use crate::registry::TaggedEngine;
use crate::response::{FinalUrl, FinalUrlView};
use crate::sanitize::{free_of, sanitized};
use crate::search::{ResultView, SearchError, SearchOptions, SearchResult, TrackingParams};
use crate::text::{
    decimal, equals, has_prefix, push_decimal, push_signed_decimal, signed_decimal, strs,
};
use crate::time::{DateTimeRange, UtcDateTime};

verus! {

/// An engine which reads search results from Brave.
pub struct BraveEngine;

impl BraveEngine {
    /// Creates a new Brave engine.
    pub fn new() -> (r: TaggedEngine)
        ensures
            r == TaggedEngine::Brave(BraveEngine),
    {
        TaggedEngine::Brave(BraveEngine)
    }
}

/// `text` with its HTML character references replaced by the characters
/// that they stand for.
pub uninterp spec fn html_entities_decoded(text: Seq<char>) -> Seq<char>;

/// `html_escape::decode_html_entities`: the text with every named and
/// numeric character reference that ends in `;` decoded.
#[verifier::external_body]
fn decode_html_entities(text: &str) -> (r: String)
    ensures
        r@ == html_entities_decoded(text@),
{
    html_escape::decode_html_entities(text).into_owned()
}

/// A date as year, month and day, joined by `-`, without leading zeros.
pub open spec fn brave_date(date: (int, int, int)) -> Seq<char> {
    signed_decimal(date.0) + seq!['-'] + decimal(date.1 as nat) + seq!['-'] + decimal(date.2 as nat)
}

/// A range of dates as Brave names it: its two ends, joined by `to`.
pub open spec fn brave_period(range: DateTimeRange) -> Seq<char> {
    brave_date(range.start.date()) + "to"@ + brave_date(range.end.date())
}

/// The parameters of a request. Pages are counted from 0; a range of dates
/// adds a parameter of its own.
pub open spec fn brave_params(query: Seq<char>, options: SearchOptions) -> Seq<
    (Seq<char>, Seq<char>),
> {
    seq![("q"@, query), ("offset"@, decimal(options.page_num as nat))]
        + match options.date_time_range {
        Some(range) => seq![("tf"@, brave_period(range))],
        None => Seq::empty(),
    }
}

fn push_date(out: &mut String, date: &UtcDateTime)
    ensures
        final(out)@ == old(out)@ + brave_date(date.date()),
{
    push_signed_decimal(out, date.year() as i64);
    out.push('-');
    push_decimal(out, date.month() as u128);
    out.push('-');
    push_decimal(out, date.day() as u128);
    assert(out@ =~= old(out)@ + brave_date(date.date()));
}

fn period(range: &DateTimeRange) -> (r: String)
    ensures
        r@ == brave_period(*range),
{
    let mut r = String::new();
    push_date(&mut r, &range.start);
    r.append("to");
    push_date(&mut r, &range.end);
    assert(r@ =~= brave_period(*range));
    r
}

/// The summary of a result card: the text of its content, without the white
/// space at its start; where the card has no content with text, the text of
/// its answer in question-and-answer form; failing both, nothing.
pub open spec fn brave_summary(doc: Seq<ElementView>, item: usize) -> Seq<char> {
    let content = first(doc, Scope::Within(item), SelectorView::Classes(any_of(seq!["content"@])));
    if content is Some && doc[content->0 as int].text is Some {
        trimmed_start(doc[content->0 as int].text->0)
    } else {
        match first(
            doc,
            Scope::Within(item),
            SelectorView::Classes(any_of(seq!["inline-qa-answer"@])),
        ) {
            Some(answer) => or_empty(doc[answer as int].text),
            None => Seq::empty(),
        }
    }
}

fn summary(doc: &Document, item: usize) -> (r: String)
    ensures
        r@ == brave_summary(doc@, item),
{
    let content_classes = ClassNames::one("content");
    match doc.first(Scope::Within(item), &Selector::Classes(&content_classes)) {
        Some(content) => match &doc.elements[content].text {
            Some(text) => {
                return trim_start(text.as_str());
            },
            None => {},
        },
        None => {},
    }
    let answer_classes = ClassNames::one("inline-qa-answer");
    match doc.first(Scope::Within(item), &Selector::Classes(&answer_classes)) {
        Some(answer) => text_or_empty(&doc.elements[answer].text),
        None => String::new(),
    }
}

/// The address that queries are sent to is a URL text without `?`, and
/// begins with the address of the home page.
proof fn lemma_address()
    ensures
        is_url_text("https://search.brave.com/search"@),
        free_of("https://search.brave.com/search"@, '?'),
        has_prefix("https://search.brave.com/search"@, "https://search.brave.com"@),
{
    reveal_with_fuel(url_text_upto, 30);
    reveal_with_fuel(free_upto, 30);
    reveal_strlit("https://search.brave.com/search");
    reveal_strlit("https://search.brave.com");
    assert("https://search.brave.com/search"@.len() == 31);
    assert(url_text_upto("https://search.brave.com/search"@, 25));
    assert(url_text_upto("https://search.brave.com/search"@, 31));
    lemma_url_text_upto("https://search.brave.com/search"@);
    assert(free_upto("https://search.brave.com/search"@, '?', 25));
    assert(free_upto("https://search.brave.com/search"@, '?', 31));
    lemma_free_upto("https://search.brave.com/search"@, '?', 31);
    assert("https://search.brave.com/search"@.subrange(0, 24) =~= "https://search.brave.com"@);
}

impl Extractor for BraveEngine {
    /// The candidates are the snippets among the children of the element
    /// `results`, whatever else that element holds. A page without that
    /// element, and no other, has no results section.
    open spec fn candidates(&self, doc: Seq<ElementView>) -> Option<Seq<usize>> {
        match first(doc, Scope::Document, SelectorView::Id("results"@)) {
            Some(results) => Some(
                every(
                    doc,
                    Scope::ChildrenOf(results),
                    SelectorView::Classes(any_of(seq!["snippet"@])),
                ),
            ),
            None => None,
        }
    }

    /// A snippet is a result unless it is typed as something other than a
    /// web result, is hidden or stands alone, or is the block of suggestions
    /// to search elsewhere or an advertisement.
    open spec fn is_organic(&self, element: ElementView) -> bool {
        &&& attribute_value(element.attributes, "data-type"@) matches Some(kind) ==> kind == "web"@
        &&& !any_of(seq!["noscript-hide"@, "standalone"@]).matches(element.classes)
        &&& element.id != Some("search_anywhere"@)
        &&& element.id != Some("search-ad"@)
    }

    /// A snippet yields a result where it holds a link and the link a title:
    /// the title's text is the title and the link's target the URL.
    open spec fn candidate_result(&self, doc: Seq<ElementView>, item: usize) -> Option<ResultView> {
        match first(doc, Scope::Within(item), SelectorView::Tag("a"@)) {
            Some(link) => match first(
                doc,
                Scope::Within(link),
                SelectorView::Classes(any_of(seq!["title"@])),
            ) {
                Some(title) => Some(
                    ResultView {
                        title: or_empty(doc[title as int].text),
                        url: sanitized(or_empty(doc[link as int].href), &TrackingParams),
                        summary: brave_summary(doc, item),
                    },
                ),
                None => None,
            },
            None => None,
        }
    }

    fn find_candidates(&self, doc: &Document) -> (r: Option<Vec<usize>>) {
        let results = match doc.first(Scope::Document, &Selector::Id("results")) {
            Some(results) => results,
            None => {
                return None;
            },
        };
        let snippet_classes = ClassNames::one("snippet");
        Some(doc.every(Scope::ChildrenOf(results), &Selector::Classes(&snippet_classes)))
    }

    fn organic(&self, element: &Element) -> (r: bool) {
        match element.attribute("data-type") {
            Some(kind) => {
                if !equals(kind.as_str(), "web") {
                    return false;
                }
            },
            None => {},
        }
        let names = vec!["noscript-hide", "standalone"];
        assert(strs(names@) =~= seq!["noscript-hide"@, "standalone"@]);
        let blocked = ClassNames::any(names);
        if blocked.matches(&element.classes) {
            return false;
        }
        match &element.id {
            Some(id) => !equals(id.as_str(), "search_anywhere") && !equals(id.as_str(), "search-ad"),
            None => true,
        }
    }

    fn extract(&self, doc: &Document, item: usize) -> (r: Option<(String, SearchResult)>) {
        let link = match doc.first(Scope::Within(item), &Selector::Tag("a")) {
            Some(link) => link,
            None => {
                return None;
            },
        };
        let title_classes = ClassNames::one("title");
        let title = match doc.first(Scope::Within(link), &Selector::Classes(&title_classes)) {
            Some(title) => text_or_empty(&doc.elements[title].text),
            None => {
                return None;
            },
        };
        let url = text_or_empty(&doc.elements[link].href);
        let summary = summary(doc, item);
        Some(SearchResult::new(title, url, summary))
    }
}

impl Engine for BraveEngine {
    open spec fn home(&self) -> Seq<char> {
        "https://search.brave.com"@
    }

    open spec fn search_address(&self) -> Seq<char> {
        "https://search.brave.com/search"@
    }

    open spec fn request_params(&self, query: Seq<char>, options: SearchOptions) -> Result<
        Seq<(Seq<char>, Seq<char>)>,
        SearchError,
    > {
        Ok(brave_params(query, options))
    }

    /// The safe-search level travels in a cookie.
    open spec fn request_headers(
        &self,
        fields: Map<Seq<char>, Seq<Seq<char>>>,
        options: SearchOptions,
        agent: nat,
    ) -> Map<Seq<char>, Seq<Seq<char>>> {
        appended(
            appended(
                appended(
                    replaced(
                        replaced(fields, "user-agent"@, no_js_pool()[(agent % 4) as int]),
                        "accept"@,
                        "*/*"@,
                    ),
                    "content-type"@,
                    "application/x-www-form-urlencoded"@,
                ),
                "cookie"@,
                "safe_search="@ + options.safe_search.word(),
            ),
            "referer"@,
            "https://google.com/"@,
        )
    }

    /// The page is parsed thoroughly, its markup being less regular.
    open spec fn parsing(&self) -> ParserMode {
        ParserMode::ComprehensiveButSlow
    }

    /// Character references are decoded before the page is parsed.
    open spec fn prepared(&self, body: Seq<char>) -> Seq<char> {
        html_entities_decoded(body)
    }

    /// Every response counts as an answer.
    open spec fn verdict(&self, url: FinalUrlView) -> Result<(), SearchError> {
        Ok(())
    }

    proof fn lemma_request(&self, query: Seq<char>, options: SearchOptions) {
        lemma_address();
        let params = brave_params(query, options);
        assert(params[0] == ("q"@, query));
        assert(query.subrange(0, query.len() as int) =~= query);
    }

    fn homepage(&self) -> (r: &'static str) {
        "https://search.brave.com"
    }

    fn url(&self, query: &str, options: &SearchOptions) -> (r: Result<String, SearchError>) {
        let mut params = QueryParams::new();
        params.add("q", query);
        params.add_number("offset", options.page_num as u128);
        match &options.date_time_range {
            Some(range) => {
                params.add("tf", period(range).as_str());
            },
            None => {},
        }
        assert(params@ =~= brave_params(query@, *options));
        Ok(request("https://search.brave.com/search", params))
    }

    fn headers(&self, headers: &mut HeaderMap<HeaderValue>, options: &SearchOptions, agent: usize) {
        proof {
            let f0 = header_fields(*headers);
            let f1 = replaced(f0, "user-agent"@, no_js_pool()[(agent % 4) as int]);
            let f2 = replaced(f1, "accept"@, "*/*"@);
            let f3 = appended(f2, "content-type"@, "application/x-www-form-urlencoded"@);
            let f4 = appended(f3, "cookie"@, "safe_search="@ + options.safe_search.word());
            lemma_room(f0, "user-agent"@, no_js_pool()[(agent % 4) as int], 5);
            lemma_room(f1, "accept"@, "*/*"@, 4);
            lemma_room(f2, "content-type"@, "application/x-www-form-urlencoded"@, 3);
            lemma_room(f3, "cookie"@, "safe_search="@ + options.safe_search.word(), 2);
        }
        insert_header(headers, "user-agent", UserAgent::random_no_js(agent));
        insert_header(headers, "accept", accept_all());
        append_header(headers, "content-type", form_urlencoded());
        append_header(headers, "cookie", safe_search_cookie(options.safe_search));
        append_header(headers, "referer", referer_google());
    }

    fn parser_mode(&self) -> (r: ParserMode) {
        ParserMode::ComprehensiveButSlow
    }

    fn prepare(&self, body: String) -> (r: String) {
        decode_html_entities(body.as_str())
    }

    fn validate_final_url(&self, url: &FinalUrl) -> (r: Result<(), SearchError>) {
        Ok(())
    }

    fn parse(&self, doc: &Document) -> (r: Result<Vec<(String, SearchResult)>, SearchError>) {
        extract_results(self, doc)
    }
}

} // verus!
