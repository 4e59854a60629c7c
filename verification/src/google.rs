//! The adapter for Google.

use vstd::prelude::*;
use vstd::string::*;
use http::{HeaderMap, HeaderValue};
use crate::agent::{no_js_pool, UserAgent};
use crate::document::{
    every, exactly, first, ClassNames, Document, Element, ElementView, Scope, Selector,
    SelectorView,
};
use crate::encode::{
    free_upto, is_url_text, lemma_free_upto, lemma_url_text_upto, url_text_upto, QueryParams,
};
use crate::engine::{request, 
    extract_results, or_empty, strip_prefix, text_or_empty, without_prefix, Engine, Extractor,
    ParserMode,
};
use crate::headers::{
    accept_html, append_header, appended, google_consent_cookie, header_fields, insert_header,
    lemma_room, referer_google, replaced,
};
use crate::registry::TaggedEngine;
use crate::response::{FinalUrl, FinalUrlView};
use crate::sanitize::{free_of, sanitized, ParamFilter};
use crate::search::{ResultView, SanitizedUrl, SearchError, SearchOptions, SearchResult};
use crate::text::{decimal, equals, has_prefix, starts_with, strs};
use crate::time::{closest_preset, durations, DateTimeRange};

verus! {

/// An engine which reads search results from Google.
pub struct GoogleEngine;

impl GoogleEngine {
    /// Creates a new Google engine.
    pub fn new() -> (r: TaggedEngine)
        ensures
            r == TaggedEngine::Google(GoogleEngine),
    {
        TaggedEngine::Google(GoogleEngine)
    }
}

/// The periods that Google can restrict a search to, each with its length
/// in seconds and the letter that names it: the past hour, day, week, month
/// and year.
pub open spec fn google_presets() -> Seq<(i64, &'static str)> {
    seq![
        (3_600i64, "h"),
        (86_400i64, "d"),
        (604_800i64, "w"),
        (2_592_000i64, "m"),
        (31_536_000i64, "y"),
    ]
}

/// The period closest in length to a range of dates, as Google names it:
/// `qdr:` and the letter of the period.
pub open spec fn google_period(range: DateTimeRange) -> Seq<char> {
    "qdr:"@ + google_presets()[closest_preset(range.duration(), durations(google_presets()))].1@
}

/// The parameters of a request. Results are counted from 0, ten to a page;
/// a range of dates adds the period that comes closest to it.
pub open spec fn google_params(query: Seq<char>, options: SearchOptions) -> Seq<
    (Seq<char>, Seq<char>),
> {
    seq![
        ("q"@, query),
        ("ie"@, "utf8"@),
        ("start"@, decimal(options.first_result(0))),
        ("filter"@, "0"@),
        ("safe"@, options.safe_search.word()),
    ] + match options.date_time_range {
        Some(range) => seq![("tbs"@, google_period(range))],
        None => Seq::empty(),
    }
}

fn period(range: &DateTimeRange) -> (r: String)
    ensures
        r@ == google_period(*range),
{
    let presets: Vec<(i64, &'static str)> = vec![
        (3_600i64, "h"),
        (86_400i64, "d"),
        (604_800i64, "w"),
        (2_592_000i64, "m"),
        (31_536_000i64, "y"),
    ];
    assert(presets@ =~= google_presets());
    let label = range.find_closest_preset(presets.as_slice());
    let mut r = String::from_str("qdr:");
    r.append(label);
    r
}

/// Whether a query parameter of a result URL belongs to Google's click
/// tracking: `ved`, `sa`, `usg` and every name that begins with `utm`.
pub fn filter_search_param_in_result_url(key: &str, _value: &str) -> (r: bool)
    ensures
        r == (key@ == "ved"@ || key@ == "sa"@ || key@ == "usg"@ || has_prefix(key@, "utm"@)),
{
    equals(key, "ved") || equals(key, "sa") || equals(key, "usg") || starts_with(key, "utm")
}

/// The filter for the URLs of Google's results.
pub struct GoogleParams;

impl ParamFilter for GoogleParams {
    open spec fn flags(&self, name: Seq<char>, value: Seq<char>) -> bool {
        name == "ved"@ || name == "sa"@ || name == "usg"@ || has_prefix(name, "utm"@)
    }

    fn test(&self, name: &str, value: &str) -> (b: bool) {
        filter_search_param_in_result_url(name, value)
    }
}

/// The title of a result: the text of the title's text node.
pub open spec fn google_title(doc: Seq<ElementView>, title: usize) -> Seq<char> {
    match first(
        doc,
        Scope::Within(title),
        SelectorView::Classes(exactly(seq!["ilUpNd"@, "UFvD1"@, "aSRlid"@])),
    ) {
        Some(text) => or_empty(doc[text as int].text),
        None => Seq::empty(),
    }
}

/// The target of a result as the page gives it: that of the first link in
/// the title, without the redirection `/url?q=` in front of it.
pub open spec fn google_target(doc: Seq<ElementView>, title: usize) -> Seq<char> {
    match first(doc, Scope::Within(title), SelectorView::Tag("a"@)) {
        Some(link) => match doc[link as int].href {
            Some(href) => without_prefix(href, "/url?q="@),
            None => Seq::empty(),
        },
        None => Seq::empty(),
    }
}

/// The summary of a result: the raw text of the summary block that stands
/// inside the result's outer summary block.
pub open spec fn google_summary(doc: Seq<ElementView>, item: usize) -> Seq<char> {
    match first(
        doc,
        Scope::Within(item),
        SelectorView::Classes(exactly(seq!["ilUpNd"@, "H66NU"@, "aSRlid"@])),
    ) {
        Some(outer) => match first(
            doc,
            Scope::Within(outer),
            SelectorView::Classes(exactly(seq!["ilUpNd"@, "H66NU"@, "aSRlid"@])),
        ) {
            Some(inner) => or_empty(doc[inner as int].raw_text),
            None => Seq::empty(),
        },
        None => Seq::empty(),
    }
}

fn summary_classes() -> (r: ClassNames)
    ensures
        r@ == exactly(seq!["ilUpNd"@, "H66NU"@, "aSRlid"@]),
{
    let names = vec!["ilUpNd", "H66NU", "aSRlid"];
    assert(strs(names@) =~= seq!["ilUpNd"@, "H66NU"@, "aSRlid"@]);
    ClassNames::exact(names)
}

fn title_of(doc: &Document, title: usize) -> (r: String)
    ensures
        r@ == google_title(doc@, title),
{
    let names = vec!["ilUpNd", "UFvD1", "aSRlid"];
    assert(strs(names@) =~= seq!["ilUpNd"@, "UFvD1"@, "aSRlid"@]);
    let classes = ClassNames::exact(names);
    match doc.first(Scope::Within(title), &Selector::Classes(&classes)) {
        Some(text) => text_or_empty(&doc.elements[text].text),
        None => String::new(),
    }
}

fn target_of(doc: &Document, title: usize) -> (r: String)
    ensures
        r@ == google_target(doc@, title),
{
    match doc.first(Scope::Within(title), &Selector::Tag("a")) {
        Some(link) => match &doc.elements[link].href {
            Some(href) => strip_prefix(href.as_str(), "/url?q="),
            None => String::new(),
        },
        None => String::new(),
    }
}

fn summary_of(doc: &Document, item: usize) -> (r: String)
    ensures
        r@ == google_summary(doc@, item),
{
    let classes = summary_classes();
    match doc.first(Scope::Within(item), &Selector::Classes(&classes)) {
        Some(outer) => match doc.first(Scope::Within(outer), &Selector::Classes(&classes)) {
            Some(inner) => text_or_empty(&doc.elements[inner].raw_text),
            None => String::new(),
        },
        None => String::new(),
    }
}

/// The address that queries are sent to is a URL text without `?`, and
/// begins with the address of the home page.
proof fn lemma_address()
    ensures
        is_url_text("https://www.google.com/search"@),
        free_of("https://www.google.com/search"@, '?'),
        has_prefix("https://www.google.com/search"@, "https://www.google.com"@),
{
    reveal_with_fuel(url_text_upto, 30);
    reveal_with_fuel(free_upto, 30);
    reveal_strlit("https://www.google.com/search");
    reveal_strlit("https://www.google.com");
    assert("https://www.google.com/search"@.len() == 29);
    assert(url_text_upto("https://www.google.com/search"@, 25));
    assert(url_text_upto("https://www.google.com/search"@, 29));
    lemma_url_text_upto("https://www.google.com/search"@);
    assert(free_upto("https://www.google.com/search"@, '?', 25));
    assert(free_upto("https://www.google.com/search"@, '?', 29));
    lemma_free_upto("https://www.google.com/search"@, '?', 29);
    assert("https://www.google.com/search"@.subrange(0, 22) =~= "https://www.google.com"@);
}

impl Extractor for GoogleEngine {
    /// The candidates are the result cards, wherever in the page they
    /// stand: every page has a results section.
    open spec fn candidates(&self, doc: Seq<ElementView>) -> Option<Seq<usize>> {
        Some(
            every(
                doc,
                Scope::Document,
                SelectorView::Classes(exactly(seq!["Gx5Zad"@, "xpd"@, "EtOod"@, "pkphOe"@])),
            ),
        )
    }

    /// Every result card is a result.
    open spec fn is_organic(&self, element: ElementView) -> bool {
        true
    }

    /// A result card yields a result where it holds a title. Its URL is
    /// cleared of Google's own tracking parameters.
    open spec fn candidate_result(&self, doc: Seq<ElementView>, item: usize) -> Option<ResultView> {
        match first(
            doc,
            Scope::Within(item),
            SelectorView::Classes(exactly(seq!["egMi0"@, "kCrYT"@])),
        ) {
            Some(title) => Some(
                ResultView {
                    title: google_title(doc, title),
                    url: sanitized(google_target(doc, title), &GoogleParams),
                    summary: google_summary(doc, item),
                },
            ),
            None => None,
        }
    }

    fn find_candidates(&self, doc: &Document) -> (r: Option<Vec<usize>>) {
        let names = vec!["Gx5Zad", "xpd", "EtOod", "pkphOe"];
        assert(strs(names@) =~= seq!["Gx5Zad"@, "xpd"@, "EtOod"@, "pkphOe"@]);
        let classes = ClassNames::exact(names);
        Some(doc.every(Scope::Document, &Selector::Classes(&classes)))
    }

    fn organic(&self, element: &Element) -> (r: bool) {
        true
    }

    fn extract(&self, doc: &Document, item: usize) -> (r: Option<(String, SearchResult)>) {
        let names = vec!["egMi0", "kCrYT"];
        assert(strs(names@) =~= seq!["egMi0"@, "kCrYT"@]);
        let classes = ClassNames::exact(names);
        let title = match doc.first(Scope::Within(item), &Selector::Classes(&classes)) {
            Some(title) => title,
            None => {
                return None;
            },
        };
        let text = title_of(doc, title);
        let target = target_of(doc, title);
        let summary = summary_of(doc, item);
        let url = SanitizedUrl::new(target.as_str(), &GoogleParams);
        Some(SearchResult::new_from_sanitized_url(text, url, summary))
    }
}

impl Engine for GoogleEngine {
    open spec fn home(&self) -> Seq<char> {
        "https://www.google.com"@
    }

    open spec fn search_address(&self) -> Seq<char> {
        "https://www.google.com/search"@
    }

    open spec fn request_params(&self, query: Seq<char>, options: SearchOptions) -> Result<
        Seq<(Seq<char>, Seq<char>)>,
        SearchError,
    > {
        Ok(google_params(query, options))
    }

    open spec fn request_headers(
        &self,
        fields: Map<Seq<char>, Seq<Seq<char>>>,
        options: SearchOptions,
        agent: nat,
    ) -> Map<Seq<char>, Seq<Seq<char>>> {
        appended(
            appended(
                replaced(
                    replaced(fields, "user-agent"@, no_js_pool()[(agent % 4) as int]),
                    "accept"@,
                    "text/html,application/xhtml+xml,application/xml;q=0.9,*/*;q=0.8"@,
                ),
                "cookie"@,
                "SOCS=CAESHAgBEhIaAB"@,
            ),
            "referer"@,
            "https://google.com/"@,
        )
    }

    open spec fn parsing(&self) -> ParserMode {
        ParserMode::FastButConstrained
    }

    /// The body is parsed as it came.
    open spec fn prepared(&self, body: Seq<char>) -> Seq<char> {
        body
    }

    /// A response that came from the host `sorry.google.com`, or from a path
    /// that begins with `/sorry`, is a challenge.
    open spec fn verdict(&self, url: FinalUrlView) -> Result<(), SearchError> {
        if url.host == Some("sorry.google.com"@) || has_prefix(url.path, "/sorry"@) {
            Err(SearchError::Captcha)
        } else {
            Ok(())
        }
    }

    proof fn lemma_request(&self, query: Seq<char>, options: SearchOptions) {
        lemma_address();
        let params = google_params(query, options);
        assert(params[0] == ("q"@, query));
        assert(query.subrange(0, query.len() as int) =~= query);
    }

    fn homepage(&self) -> (r: &'static str) {
        "https://www.google.com"
    }

    fn url(&self, query: &str, options: &SearchOptions) -> (r: Result<String, SearchError>) {
        let mut params = QueryParams::new();
        params.add("q", query);
        params.add("ie", "utf8");
        params.add_number("start", options.first_result_index(0));
        params.add("filter", "0");
        params.add("safe", options.safe_search.as_lowercase_string());
        match &options.date_time_range {
            Some(range) => {
                params.add("tbs", period(range).as_str());
            },
            None => {},
        }
        assert(params@ =~= google_params(query@, *options));
        Ok(request("https://www.google.com/search", params))
    }

    fn headers(&self, headers: &mut HeaderMap<HeaderValue>, options: &SearchOptions, agent: usize) {
        proof {
            let accept = "text/html,application/xhtml+xml,application/xml;q=0.9,*/*;q=0.8"@;
            let f0 = header_fields(*headers);
            let f1 = replaced(f0, "user-agent"@, no_js_pool()[(agent % 4) as int]);
            let f2 = replaced(f1, "accept"@, accept);
            lemma_room(f0, "user-agent"@, no_js_pool()[(agent % 4) as int], 5);
            lemma_room(f1, "accept"@, accept, 4);
            lemma_room(f2, "cookie"@, "SOCS=CAESHAgBEhIaAB"@, 3);
        }
        insert_header(headers, "user-agent", UserAgent::random_no_js(agent));
        insert_header(headers, "accept", accept_html());
        append_header(headers, "cookie", google_consent_cookie());
        append_header(headers, "referer", referer_google());
    }

    fn parser_mode(&self) -> (r: ParserMode) {
        ParserMode::FastButConstrained
    }

    fn prepare(&self, body: String) -> (r: String) {
        body
    }

    fn validate_final_url(&self, url: &FinalUrl) -> (r: Result<(), SearchError>) {
        let sorry_host = match &url.host {
            Some(host) => equals(host.as_str(), "sorry.google.com"),
            None => false,
        };
        if sorry_host || starts_with(url.path.as_str(), "/sorry") {
            Err(SearchError::Captcha)
        } else {
            Ok(())
        }
    }

    fn parse(&self, doc: &Document) -> (r: Result<Vec<(String, SearchResult)>, SearchError>) {
        extract_results(self, doc)
    }
}

} // verus!
