//! What a caller asks for and what an adapter hands back.

use vstd::prelude::*;
use crate::sanitize::{sanitize_url, sanitized, ParamFilter};
use crate::text::{equals, has_prefix, starts_with};
use crate::time::DateTimeRange;

verus! {

/// How strictly a provider is asked to leave out explicit results.
#[derive(Clone, Copy, Debug, PartialEq, Eq, Structural)]
pub enum SafeSearch {
    Off,
    Moderate,
    Strict,
}

impl SafeSearch {
    /// The level as a lower-case word.
    pub open spec fn word(self) -> Seq<char> {
        match self {
            SafeSearch::Off => "off"@,
            SafeSearch::Moderate => "moderate"@,
            SafeSearch::Strict => "strict"@,
        }
    }

    /// The level as a number: 0 for `Off`, 1 for `Moderate`, 2 for `Strict`.
    pub open spec fn level(self) -> nat {
        match self {
            SafeSearch::Off => 0,
            SafeSearch::Moderate => 1,
            SafeSearch::Strict => 2,
        }
    }

    /// The level as a lower-case word.
    pub fn as_lowercase_string(&self) -> (r: &'static str)
        ensures
            r@ == self.word(),
    {
        match self {
            SafeSearch::Off => "off",
            SafeSearch::Moderate => "moderate",
            SafeSearch::Strict => "strict",
        }
    }

    /// 0 when safe search is off, 1 when it is on at either level.
    pub fn as_u8_bool(&self) -> (r: u8)
        ensures
            r == if self.level() == 0 { 0u8 } else { 1u8 },
    {
        match self {
            SafeSearch::Off => 0,
            SafeSearch::Moderate => 1,
            SafeSearch::Strict => 1,
        }
    }

    /// The level as a number: 0 for `Off`, 1 for `Moderate`, 2 for `Strict`.
    pub fn as_incrementing_usize(&self) -> (r: usize)
        ensures
            r == self.level(),
    {
        match self {
            SafeSearch::Off => 0,
            SafeSearch::Moderate => 1,
            SafeSearch::Strict => 2,
        }
    }
}

/// A query as the caller describes it, apart from its text.
#[derive(Clone, Copy, Debug)]
pub struct SearchOptions {
    /// The page of results, counted from zero.
    pub page_num: usize,
    pub safe_search: SafeSearch,
    /// Restricts the results to a period of time.
    pub date_time_range: Option<DateTimeRange>,
}

impl SearchOptions {
    /// The number of the first result on the page, for a provider that shows
    /// ten results to a page and counts them from `base`.
    pub open spec fn first_result(&self, base: nat) -> nat {
        (10 * self.page_num + base) as nat
    }

    /// The number of the first result on the page, for a provider that shows
    /// ten results to a page and counts them from `base`.
    pub fn first_result_index(&self, base: u8) -> (r: u128)
        ensures
            r == self.first_result(base as nat),
    {
        10 * (self.page_num as u128) + base as u128
    }
}

/// Why an adapter could not serve a request.
#[derive(Clone, Copy, Debug, PartialEq, Eq, Structural)]
pub enum SearchError {
    /// The page holds no results section.
    NoResultsFound,
    /// The provider answered with a challenge for bots.
    Captcha,
    /// The provider does not accept the safe-search level that was asked for.
    SafeSearchRestriction,
}

/// The filter applied to every result URL: it flags the campaign parameters
/// `utm_*` and the click identifiers `fbclid`, `gclid` and `msclkid`.
pub struct TrackingParams;

impl ParamFilter for TrackingParams {
    open spec fn flags(&self, name: Seq<char>, value: Seq<char>) -> bool {
        ||| has_prefix(name, "utm_"@)
        ||| name == "fbclid"@
        ||| name == "gclid"@
        ||| name == "msclkid"@
    }

    fn test(&self, name: &str, value: &str) -> (b: bool) {
        starts_with(name, "utm_") || equals(name, "fbclid") || equals(name, "gclid") || equals(
            name,
            "msclkid",
        )
    }
}

/// A URL from which the parameters flagged by a filter have been removed.
pub struct SanitizedUrl {
    text: String,
}

impl View for SanitizedUrl {
    type V = Seq<char>;

    closed spec fn view(&self) -> Seq<char> {
        self.text@
    }
}

impl SanitizedUrl {
    /// Removes from `url` the query parameters that `filter` flags.
    pub fn new<F: ParamFilter>(url: &str, filter: &F) -> (r: SanitizedUrl)
        ensures
            r@ == sanitized(url@, filter),
    {
        SanitizedUrl { text: sanitize_url(url, filter) }
    }

    pub fn into_string(self) -> (r: String)
        ensures
            r@ == self@,
    {
        self.text
    }
}

/// One search result.
#[derive(Clone, Debug)]
pub struct SearchResult {
    pub title: String,
    /// Where the result leads, without tracking parameters; empty when the
    /// page gave none.
    pub url: String,
    /// May be empty.
    pub summary: String,
}

/// The texts of a search result.
pub struct ResultView {
    pub title: Seq<char>,
    pub url: Seq<char>,
    pub summary: Seq<char>,
}

impl View for SearchResult {
    type V = ResultView;

    open spec fn view(&self) -> ResultView {
        ResultView { title: self.title@, url: self.url@, summary: self.summary@ }
    }
}

/// The results of a list of keyed results.
pub open spec fn results_view(entries: Seq<(String, SearchResult)>) -> Seq<ResultView> {
    Seq::new(entries.len(), |i: int| entries[i].1@)
}

/// Whether every key is the URL of its result.
pub open spec fn keyed_by_url(entries: Seq<(String, SearchResult)>) -> bool {
    forall|i: int| 0 <= i < entries.len() ==> (#[trigger] entries[i]).0@ == entries[i].1.url@
}

impl SearchResult {
    /// A result whose URL has been cleared of tracking parameters, together
    /// with the key under which it is filed: its URL.
    pub fn new(title: String, url: String, summary: String) -> (r: (String, SearchResult))
        ensures
            r.1@ == (ResultView {
                title: title@,
                url: sanitized(url@, &TrackingParams),
                summary: summary@,
            }),
            r.0@ == r.1.url@,
    {
        let clean = SanitizedUrl::new(url.as_str(), &TrackingParams);
        SearchResult::new_from_sanitized_url(title, clean, summary)
    }

    /// A result with a URL that has been sanitized already, together with the
    /// key under which it is filed: its URL.
    pub fn new_from_sanitized_url(title: String, url: SanitizedUrl, summary: String) -> (r: (
        String,
        SearchResult,
    ))
        ensures
            r.1@ == (ResultView { title: title@, url: url@, summary: summary@ }),
            r.0@ == r.1.url@,
    {
        let url = url.into_string();
        let key = url.clone();
        (key, SearchResult { title, url, summary })
    }
}

} // verus!
