//! The contract that every provider adapter meets, and the steps of
//! extraction that the adapters share.

use vstd::prelude::*;
use vstd::string::*;
use http::{HeaderMap, HeaderValue};
use crate::document::{chars_of, Document, Element, ElementView};
use crate::headers::{has_room, header_fields, new_header_map, no_fields};
use crate::response::{FinalUrl, FinalUrlView};
use crate::search::{
    keyed_by_url, results_view, ResultView, SearchError, SearchOptions, SearchResult,
};
use crate::encode::{
    encoded, is_url_text, lemma_pair_text, lemma_request_text, pair_texts, request_text,
    QueryParams,
};
use crate::sanitize::{free_of, param_name, param_value, parameters};
use crate::text::{from_range, has_prefix, matches_at, to_chars};

verus! {

/// The outcome of building a URL, as characters.
pub open spec fn url_view(r: Result<String, SearchError>) -> Result<Seq<char>, SearchError> {
    match r {
        Ok(url) => Ok(url@),
        Err(e) => Err(e),
    }
}

/// The URL of a request with the given parameters, or why there is none.
pub open spec fn request_url(
    address: Seq<char>,
    params: Result<Seq<(Seq<char>, Seq<char>)>, SearchError>,
) -> Result<Seq<char>, SearchError> {
    match params {
        Ok(params) => Ok(request_text(address, params)),
        Err(e) => Err(e),
    }
}

/// Puts a URL together from the address and the parameters.
pub fn request(address: &str, params: QueryParams) -> (url: String)
    ensures
        url@ == request_text(address@, params@),
{
    let mut url = String::from_str(address);
    url.push('?');
    url.append(params.finish().as_str());
    assert(url@ =~= request_text(address@, params@));
    url
}

/// The outcome of an extraction, as the results without their keys.
pub open spec fn extraction_view(r: Result<Vec<(String, SearchResult)>, SearchError>) -> Result<
    Seq<ResultView>,
    SearchError,
> {
    match r {
        Ok(entries) => Ok(results_view(entries@)),
        Err(e) => Err(e),
    }
}

/// How a page is parsed before an adapter reads it.
#[derive(Clone, Copy, Debug, PartialEq, Eq, Structural)]
pub enum ParserMode {
    /// Fast, for pages with regular markup.
    FastButConstrained,
    /// Thorough, for pages whose markup is less regular.
    ComprehensiveButSlow,
}

/// The number of header names that an adapter may add to a header set.
pub const HEADERS_PER_REQUEST: usize = 5;

/// How an adapter reads a parsed page: where it finds the candidate
/// elements, which of them it passes over, and what it reads out of one.
pub trait Extractor {
    /// The candidate elements of a page in document order, or `None` where
    /// the page has no results section.
    spec fn candidates(&self, doc: Seq<ElementView>) -> Option<Seq<usize>>;

    /// Whether a candidate is a result proper, rather than an advertisement,
    /// a suggestion or another kind of card.
    spec fn is_organic(&self, element: ElementView) -> bool;

    /// The result that a candidate element yields, if it yields one.
    spec fn candidate_result(&self, doc: Seq<ElementView>, item: usize) -> Option<ResultView>;

    /// Finds the candidate elements of a page.
    fn find_candidates(&self, doc: &Document) -> (r: Option<Vec<usize>>)
        ensures
            match r {
                Some(items) => self.candidates(doc@) == Some(items@),
                None => self.candidates(doc@) is None,
            },
    ;

    /// Whether a candidate is a result proper.
    fn organic(&self, element: &Element) -> (r: bool)
        ensures
            r == self.is_organic(element@),
    ;

    /// Reads one candidate element: its result, and the result's URL as key.
    fn extract(&self, doc: &Document, item: usize) -> (r: Option<(String, SearchResult)>)
        ensures
            match r {
                Some(entry) => self.candidate_result(doc@, item) == Some(entry.1@) && entry.0@
                    == entry.1.url@,
                None => self.candidate_result(doc@, item) is None,
            },
    ;
}

/// A provider adapter: it builds the request for a query and reads the
/// results out of the provider's answer. An adapter holds no state.
pub trait Engine: Extractor + Sized {
    /// The provider's home page.
    spec fn home(&self) -> Seq<char>;

    /// The address that queries are sent to, without the query itself.
    spec fn search_address(&self) -> Seq<char>;

    /// The parameters of the request for a query, as name and value, in
    /// their order; or why the provider cannot be asked.
    spec fn request_params(&self, query: Seq<char>, options: SearchOptions) -> Result<
        Seq<(Seq<char>, Seq<char>)>,
        SearchError,
    >;

    /// The header set of a request: what the adapter makes of the fields
    /// when the caller picked the agent numbered `agent`.
    spec fn request_headers(
        &self,
        fields: Map<Seq<char>, Seq<Seq<char>>>,
        options: SearchOptions,
        agent: nat,
    ) -> Map<Seq<char>, Seq<Seq<char>>>;

    /// How the provider's pages are to be parsed.
    spec fn parsing(&self) -> ParserMode;

    /// The body of a response as it is handed to the parser.
    spec fn prepared(&self, body: Seq<char>) -> Seq<char>;

    /// What the address that a response came from says of it.
    spec fn verdict(&self, url: FinalUrlView) -> Result<(), SearchError>;

    /// The address that queries are sent to is a URL text without `?` and
    /// begins with the address of the home page. A request has parameters,
    /// and the value of the first begins with the text of the query.
    proof fn lemma_request(&self, query: Seq<char>, options: SearchOptions)
        ensures
            is_url_text(self.search_address()),
            free_of(self.search_address(), '?'),
            has_prefix(self.search_address(), self.home()),
            self.request_params(query, options) matches Ok(params) ==> params.len() >= 1
                && has_prefix(params[0].1, query),
    ;

    fn homepage(&self) -> (r: &'static str)
        ensures
            r@ == self.home(),
    ;

    /// The URL to request for `query`: the address, `?`, and the parameters
    /// of the request as a query string.
    fn url(&self, query: &str, options: &SearchOptions) -> (r: Result<String, SearchError>)
        ensures
            url_view(r) == request_url(
                self.search_address(),
                self.request_params(query@, *options),
            ),
    ;

    /// Puts the request headers into `headers`. The caller picks the user
    /// agent by `agent`.
    fn headers(&self, headers: &mut HeaderMap<HeaderValue>, options: &SearchOptions, agent: usize)
        requires
            has_room(header_fields(*old(headers)), HEADERS_PER_REQUEST as nat),
        ensures
            header_fields(*final(headers)) == self.request_headers(
                header_fields(*old(headers)),
                *options,
                agent as nat,
            ),
    ;

    /// How the provider's pages are to be parsed.
    fn parser_mode(&self) -> (r: ParserMode)
        ensures
            r == self.parsing(),
    ;

    /// Makes the body of a response ready for the parser.
    fn prepare(&self, body: String) -> (r: String)
        ensures
            r@ == self.prepared(body@),
    ;

    /// Tells from the address that a response finally came from whether the
    /// provider answered the query.
    fn validate_final_url(&self, url: &FinalUrl) -> (r: Result<(), SearchError>)
        ensures
            r == self.verdict(url@),
    ;

    /// Reads the results out of a parsed page, in document order, each with
    /// its URL as key.
    fn parse(&self, doc: &Document) -> (r: Result<Vec<(String, SearchResult)>, SearchError>)
        ensures
            extraction_view(r) == extracted(self, doc@),
            r matches Ok(entries) ==> keyed_by_url(entries@),
    ;
}

/// The URL of a request holds nothing but characters that may stand in a
/// URL and begins with the address of the provider's home page. Its
/// parameters, read back, are those of the request in their order: each is
/// written as its encoded name, `=` and its encoded value, and so stands
/// apart from its neighbours. The first of them carries the text of the
/// query at the start of its value.
pub proof fn lemma_request_url<E: Engine>(engine: &E, query: Seq<char>, options: SearchOptions)
    ensures
        match (
            request_url(engine.search_address(), engine.request_params(query, options)),
            engine.request_params(query, options),
        ) {
            (Ok(url), Ok(params)) => {
                &&& is_url_text(url)
                &&& has_prefix(url, engine.home())
                &&& parameters(url) == pair_texts(params)
                &&& forall|i: int|
                    0 <= i < params.len() ==> {
                        &&& param_name(#[trigger] parameters(url)[i]) == encoded(params[i].0)
                        &&& param_value(parameters(url)[i]) == encoded(params[i].1)
                    }
                &&& params.len() >= 1
                &&& has_prefix(params[0].1, query)
            },
            _ => request_url(engine.search_address(), engine.request_params(query, options))
                is Err,
        },
{
    engine.lemma_request(query, options);
    match engine.request_params(query, options) {
        Ok(params) => {
            let address = engine.search_address();
            let url = request_text(address, params);
            lemma_request_text(address, params);
            assert forall|i: int| 0 <= i < params.len() implies {
                &&& param_name(#[trigger] parameters(url)[i]) == encoded(params[i].0)
                &&& param_value(parameters(url)[i]) == encoded(params[i].1)
            } by {
                lemma_pair_text(params[i]);
            }
            assert(url.subrange(0, engine.home().len() as int) =~= address.subrange(
                0,
                engine.home().len() as int,
            ));
        },
        Err(_) => {},
    }
}

/// The header set of a request, made afresh.
pub fn build_headers<E: Engine>(engine: &E, options: &SearchOptions, agent: usize) -> (headers:
    HeaderMap<HeaderValue>)
    ensures
        header_fields(headers) == engine.request_headers(no_fields(), *options, agent as nat),
{
    let mut headers = new_header_map();
    assert(no_fields().dom() =~= Set::<Seq<char>>::empty());
    engine.headers(&mut headers, options, agent);
    headers
}

/// The results that the candidates yield, in their order. A candidate that
/// is not organic is passed over before anything is read from it, as is one
/// that the document does not hold, and one that yields no result is left
/// out.
pub open spec fn gathered<E: Extractor>(engine: &E, doc: Seq<ElementView>, items: Seq<usize>) -> Seq<
    ResultView,
>
    decreases items.len(),
{
    if items.len() == 0 {
        Seq::empty()
    } else {
        let before = gathered(engine, doc, items.drop_last());
        let item = items.last();
        if item < doc.len() && engine.is_organic(doc[item as int]) {
            match engine.candidate_result(doc, item) {
                Some(result) => before.push(result),
                None => before,
            }
        } else {
            before
        }
    }
}

/// The results of a page in document order: those that its candidates yield,
/// or `NoResultsFound` where the page has no results section.
pub open spec fn extracted<E: Extractor>(engine: &E, doc: Seq<ElementView>) -> Result<
    Seq<ResultView>,
    SearchError,
> {
    match engine.candidates(doc) {
        Some(items) => Ok(gathered(engine, doc, items)),
        None => Err(SearchError::NoResultsFound),
    }
}

/// A page is refused as holding no results only when its results section
/// is absent; a section without candidates gives an empty list.
pub proof fn lemma_no_results_only_without_section<E: Extractor>(engine: &E, doc: Seq<ElementView>)
    ensures
        extracted(engine, doc) is Err <==> engine.candidates(doc) is None,
        extracted(engine, doc) is Err ==> extracted(engine, doc) == Err::<
            Seq<ResultView>,
            SearchError,
        >(SearchError::NoResultsFound),
        engine.candidates(doc) == Some(Seq::<usize>::empty()) ==> extracted(engine, doc) == Ok::<
            Seq<ResultView>,
            SearchError,
        >(Seq::empty()),
{
}

/// No more results come out of a page than it has candidates.
pub proof fn lemma_gathered_len<E: Extractor>(engine: &E, doc: Seq<ElementView>, items: Seq<usize>)
    ensures
        gathered(engine, doc, items).len() <= items.len(),
    decreases items.len(),
{
    if items.len() > 0 {
        lemma_gathered_len(engine, doc, items.drop_last());
    }
}

/// Reads the candidates one by one and gathers what they yield.
pub fn gather<E: Extractor>(engine: &E, doc: &Document, items: &Vec<usize>) -> (entries: Vec<
    (String, SearchResult),
>)
    ensures
        results_view(entries@) == gathered(engine, doc@, items@),
        keyed_by_url(entries@),
{
    let mut entries: Vec<(String, SearchResult)> = Vec::new();
    let mut i: usize = 0;
    assert(items@.take(0) =~= Seq::<usize>::empty());
    assert(results_view(entries@) =~= Seq::<ResultView>::empty());
    while i < items.len()
        invariant
            i <= items.len(),
            results_view(entries@) == gathered(engine, doc@, items@.take(i as int)),
            keyed_by_url(entries@),
        decreases items.len() - i,
    {
        let ghost before = results_view(entries@);
        proof {
            assert(items@.take(i + 1).drop_last() =~= items@.take(i as int));
            assert(items@.take(i + 1).last() == items@[i as int]);
        }
        let item = items[i];
        let organic = match doc.get(item) {
            Some(element) => engine.organic(element),
            None => false,
        };
        if organic {
            match engine.extract(doc, item) {
                Some(entry) => {
                    let ghost result = entry.1@;
                    entries.push(entry);
                    assert(results_view(entries@) =~= before.push(result));
                },
                None => {},
            }
        }
        i += 1;
    }
    assert(items@.take(items.len() as int) =~= items@);
    entries
}

/// Reads the results out of a parsed page.
pub fn extract_results<E: Extractor>(engine: &E, doc: &Document) -> (r: Result<
    Vec<(String, SearchResult)>,
    SearchError,
>)
    ensures
        extraction_view(r) == extracted(engine, doc@),
        r matches Ok(entries) ==> keyed_by_url(entries@),
{
    match engine.find_candidates(doc) {
        Some(items) => Ok(gather(engine, doc, &items)),
        None => Err(SearchError::NoResultsFound),
    }
}

/// The text, or nothing where there is none.
pub open spec fn or_empty(text: Option<Seq<char>>) -> Seq<char> {
    match text {
        Some(t) => t,
        None => Seq::empty(),
    }
}

/// The text, or an empty string where there is none.
pub fn text_or_empty(text: &Option<String>) -> (r: String)
    ensures
        r@ == or_empty(chars_of(*text)),
{
    match text {
        Some(t) => t.clone(),
        None => String::new(),
    }
}

/// `text` without `prefix` at its start; `text` itself where it does not
/// start with it.
pub open spec fn without_prefix(text: Seq<char>, prefix: Seq<char>) -> Seq<char> {
    if has_prefix(text, prefix) {
        text.skip(prefix.len() as int)
    } else {
        text
    }
}

/// `text` without `prefix` at its start.
pub fn strip_prefix(text: &str, prefix: &str) -> (r: String)
    ensures
        r@ == without_prefix(text@, prefix@),
{
    let chars = to_chars(text);
    let lead = to_chars(prefix);
    if matches_at(&chars, &lead, 0) {
        let r = from_range(&chars, lead.len(), chars.len());
        assert(chars@.subrange(lead.len() as int, chars.len() as int) =~= text@.skip(
            prefix@.len() as int,
        ));
        r
    } else {
        let r = from_range(&chars, 0, chars.len());
        assert(chars@.subrange(0, chars.len() as int) =~= text@);
        r
    }
}

/// Whether the character is white space, as Unicode defines it.
pub open spec fn is_white_space(c: char) -> bool {
    let u = c as u32;
    ||| 0x09 <= u <= 0x0d
    ||| u == 0x20
    ||| u == 0x85
    ||| u == 0xa0
    ||| u == 0x1680
    ||| 0x2000 <= u <= 0x200a
    ||| u == 0x2028
    ||| u == 0x2029
    ||| u == 0x202f
    ||| u == 0x205f
    ||| u == 0x3000
}

/// The number of white-space characters at the start of `text`.
pub open spec fn leading_white_space(text: Seq<char>) -> nat
    decreases text.len(),
{
    if text.len() > 0 && is_white_space(text[0]) {
        1 + leading_white_space(text.drop_first())
    } else {
        0
    }
}

/// `text` without the white space at its start.
pub open spec fn trimmed_start(text: Seq<char>) -> Seq<char> {
    text.skip(leading_white_space(text) as int)
}

fn white_space(c: char) -> (r: bool)
    ensures
        r == is_white_space(c),
{
    let u: u32 = c as u32;
    (0x09 <= u && u <= 0x0d) || u == 0x20 || u == 0x85 || u == 0xa0 || u == 0x1680 || (0x2000 <= u
        && u <= 0x200a) || u == 0x2028 || u == 0x2029 || u == 0x202f || u == 0x205f || u == 0x3000
}

/// Counting white space at the start may go on behind white space.
proof fn lemma_leading_white_space(text: Seq<char>, n: int)
    requires
        0 <= n <= text.len(),
        forall|k: int| 0 <= k < n ==> is_white_space(text[k]),
    ensures
        leading_white_space(text) == n + leading_white_space(text.skip(n)),
    decreases n,
{
    if n == 0 {
        assert(text.skip(0) =~= text);
    } else {
        let rest = text.drop_first();
        assert forall|k: int| 0 <= k < n - 1 implies is_white_space(rest[k]) by {
            assert(rest[k] == text[k + 1]);
        }
        lemma_leading_white_space(rest, n - 1);
        assert(rest.skip(n - 1) =~= text.skip(n));
    }
}

/// `text` without the white space at its start.
pub fn trim_start(text: &str) -> (r: String)
    ensures
        r@ == trimmed_start(text@),
{
    let chars = to_chars(text);
    let mut n: usize = 0;
    while n < chars.len() && white_space(chars[n])
        invariant
            n <= chars.len(),
            forall|k: int| 0 <= k < n ==> is_white_space(chars@[k]),
        decreases chars.len() - n,
    {
        n += 1;
    }
    proof {
        lemma_leading_white_space(chars@, n as int);
        let rest = chars@.skip(n as int);
        if n < chars.len() {
            assert(rest[0] == chars@[n as int]);
        }
        assert(leading_white_space(rest) == 0);
    }
    let r = from_range(&chars, n, chars.len());
    assert(chars@.subrange(n as int, chars.len() as int) =~= chars@.skip(n as int));
    r
}

} // verus!
