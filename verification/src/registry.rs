//! The adapters as one type, so that a caller can treat every provider
//! alike.

use vstd::prelude::*;
use http::{HeaderMap, HeaderValue};
use crate::bing::BingEngine;
use crate::brave::BraveEngine;
use crate::document::{Document, Element, ElementView};
use crate::engine::{gathered, Engine, Extractor, ParserMode};
use crate::google::GoogleEngine;
use crate::mojeek::MojeekEngine;
use crate::response::{FinalUrl, FinalUrlView};
use crate::search::{ResultView, SearchError, SearchOptions, SearchResult};
use crate::yahoo::YahooEngine;
use crate::yandex::YandexEngine;

verus! {

/// An adapter together with the mark of the provider that it serves.
pub enum TaggedEngine {
    Bing(BingEngine),
    Brave(BraveEngine),
    Google(GoogleEngine),
    Mojeek(MojeekEngine),
    Yahoo(YahooEngine),
    Yandex(YandexEngine),
}

impl TaggedEngine {
    /// The provider's name, in lower case.
    pub open spec fn tag_name(&self) -> Seq<char> {
        match self {
            TaggedEngine::Bing(_) => "bing"@,
            TaggedEngine::Brave(_) => "brave"@,
            TaggedEngine::Google(_) => "google"@,
            TaggedEngine::Mojeek(_) => "mojeek"@,
            TaggedEngine::Yahoo(_) => "yahoo"@,
            TaggedEngine::Yandex(_) => "yandex"@,
        }
    }

    /// The provider's name, in lower case.
    pub fn tag(&self) -> (r: &'static str)
        ensures
            r@ == self.tag_name(),
    {
        match self {
            TaggedEngine::Bing(_) => "bing",
            TaggedEngine::Brave(_) => "brave",
            TaggedEngine::Google(_) => "google",
            TaggedEngine::Mojeek(_) => "mojeek",
            TaggedEngine::Yahoo(_) => "yahoo",
            TaggedEngine::Yandex(_) => "yandex",
        }
    }
}

/// Two adapters that pass over the same candidates and read the same out of
/// each gather the same results.
pub proof fn lemma_gathered_alike<A: Extractor, B: Extractor>(
    a: &A,
    b: &B,
    doc: Seq<ElementView>,
    items: Seq<usize>,
)
    requires
        forall|element: ElementView| a.is_organic(element) == b.is_organic(element),
        forall|item: usize| a.candidate_result(doc, item) == b.candidate_result(doc, item),
    ensures
        gathered(a, doc, items) == gathered(b, doc, items),
    decreases items.len(),
{
    if items.len() > 0 {
        lemma_gathered_alike(a, b, doc, items.drop_last());
    }
}

impl Extractor for TaggedEngine {
    open spec fn candidates(&self, doc: Seq<ElementView>) -> Option<Seq<usize>> {
        match self {
            TaggedEngine::Bing(engine) => engine.candidates(doc),
            TaggedEngine::Brave(engine) => engine.candidates(doc),
            TaggedEngine::Google(engine) => engine.candidates(doc),
            TaggedEngine::Mojeek(engine) => engine.candidates(doc),
            TaggedEngine::Yahoo(engine) => engine.candidates(doc),
            TaggedEngine::Yandex(engine) => engine.candidates(doc),
        }
    }

    open spec fn is_organic(&self, element: ElementView) -> bool {
        match self {
            TaggedEngine::Bing(engine) => engine.is_organic(element),
            TaggedEngine::Brave(engine) => engine.is_organic(element),
            TaggedEngine::Google(engine) => engine.is_organic(element),
            TaggedEngine::Mojeek(engine) => engine.is_organic(element),
            TaggedEngine::Yahoo(engine) => engine.is_organic(element),
            TaggedEngine::Yandex(engine) => engine.is_organic(element),
        }
    }

    open spec fn candidate_result(&self, doc: Seq<ElementView>, item: usize) -> Option<ResultView> {
        match self {
            TaggedEngine::Bing(engine) => engine.candidate_result(doc, item),
            TaggedEngine::Brave(engine) => engine.candidate_result(doc, item),
            TaggedEngine::Google(engine) => engine.candidate_result(doc, item),
            TaggedEngine::Mojeek(engine) => engine.candidate_result(doc, item),
            TaggedEngine::Yahoo(engine) => engine.candidate_result(doc, item),
            TaggedEngine::Yandex(engine) => engine.candidate_result(doc, item),
        }
    }

    fn find_candidates(&self, doc: &Document) -> (r: Option<Vec<usize>>) {
        match self {
            TaggedEngine::Bing(engine) => engine.find_candidates(doc),
            TaggedEngine::Brave(engine) => engine.find_candidates(doc),
            TaggedEngine::Google(engine) => engine.find_candidates(doc),
            TaggedEngine::Mojeek(engine) => engine.find_candidates(doc),
            TaggedEngine::Yahoo(engine) => engine.find_candidates(doc),
            TaggedEngine::Yandex(engine) => engine.find_candidates(doc),
        }
    }

    fn organic(&self, element: &Element) -> (r: bool) {
        match self {
            TaggedEngine::Bing(engine) => engine.organic(element),
            TaggedEngine::Brave(engine) => engine.organic(element),
            TaggedEngine::Google(engine) => engine.organic(element),
            TaggedEngine::Mojeek(engine) => engine.organic(element),
            TaggedEngine::Yahoo(engine) => engine.organic(element),
            TaggedEngine::Yandex(engine) => engine.organic(element),
        }
    }

    fn extract(&self, doc: &Document, item: usize) -> (r: Option<(String, SearchResult)>) {
        match self {
            TaggedEngine::Bing(engine) => engine.extract(doc, item),
            TaggedEngine::Brave(engine) => engine.extract(doc, item),
            TaggedEngine::Google(engine) => engine.extract(doc, item),
            TaggedEngine::Mojeek(engine) => engine.extract(doc, item),
            TaggedEngine::Yahoo(engine) => engine.extract(doc, item),
            TaggedEngine::Yandex(engine) => engine.extract(doc, item),
        }
    }
}

impl Engine for TaggedEngine {
    open spec fn home(&self) -> Seq<char> {
        match self {
            TaggedEngine::Bing(engine) => engine.home(),
            TaggedEngine::Brave(engine) => engine.home(),
            TaggedEngine::Google(engine) => engine.home(),
            TaggedEngine::Mojeek(engine) => engine.home(),
            TaggedEngine::Yahoo(engine) => engine.home(),
            TaggedEngine::Yandex(engine) => engine.home(),
        }
    }

    open spec fn search_address(&self) -> Seq<char> {
        match self {
            TaggedEngine::Bing(engine) => engine.search_address(),
            TaggedEngine::Brave(engine) => engine.search_address(),
            TaggedEngine::Google(engine) => engine.search_address(),
            TaggedEngine::Mojeek(engine) => engine.search_address(),
            TaggedEngine::Yahoo(engine) => engine.search_address(),
            TaggedEngine::Yandex(engine) => engine.search_address(),
        }
    }

    open spec fn request_params(&self, query: Seq<char>, options: SearchOptions) -> Result<
        Seq<(Seq<char>, Seq<char>)>,
        SearchError,
    > {
        match self {
            TaggedEngine::Bing(engine) => engine.request_params(query, options),
            TaggedEngine::Brave(engine) => engine.request_params(query, options),
            TaggedEngine::Google(engine) => engine.request_params(query, options),
            TaggedEngine::Mojeek(engine) => engine.request_params(query, options),
            TaggedEngine::Yahoo(engine) => engine.request_params(query, options),
            TaggedEngine::Yandex(engine) => engine.request_params(query, options),
        }
    }

    open spec fn request_headers(
        &self,
        fields: Map<Seq<char>, Seq<Seq<char>>>,
        options: SearchOptions,
        agent: nat,
    ) -> Map<Seq<char>, Seq<Seq<char>>> {
        match self {
            TaggedEngine::Bing(engine) => engine.request_headers(fields, options, agent),
            TaggedEngine::Brave(engine) => engine.request_headers(fields, options, agent),
            TaggedEngine::Google(engine) => engine.request_headers(fields, options, agent),
            TaggedEngine::Mojeek(engine) => engine.request_headers(fields, options, agent),
            TaggedEngine::Yahoo(engine) => engine.request_headers(fields, options, agent),
            TaggedEngine::Yandex(engine) => engine.request_headers(fields, options, agent),
        }
    }

    open spec fn parsing(&self) -> ParserMode {
        match self {
            TaggedEngine::Bing(engine) => engine.parsing(),
            TaggedEngine::Brave(engine) => engine.parsing(),
            TaggedEngine::Google(engine) => engine.parsing(),
            TaggedEngine::Mojeek(engine) => engine.parsing(),
            TaggedEngine::Yahoo(engine) => engine.parsing(),
            TaggedEngine::Yandex(engine) => engine.parsing(),
        }
    }

    open spec fn prepared(&self, body: Seq<char>) -> Seq<char> {
        match self {
            TaggedEngine::Bing(engine) => engine.prepared(body),
            TaggedEngine::Brave(engine) => engine.prepared(body),
            TaggedEngine::Google(engine) => engine.prepared(body),
            TaggedEngine::Mojeek(engine) => engine.prepared(body),
            TaggedEngine::Yahoo(engine) => engine.prepared(body),
            TaggedEngine::Yandex(engine) => engine.prepared(body),
        }
    }

    open spec fn verdict(&self, url: FinalUrlView) -> Result<(), SearchError> {
        match self {
            TaggedEngine::Bing(engine) => engine.verdict(url),
            TaggedEngine::Brave(engine) => engine.verdict(url),
            TaggedEngine::Google(engine) => engine.verdict(url),
            TaggedEngine::Mojeek(engine) => engine.verdict(url),
            TaggedEngine::Yahoo(engine) => engine.verdict(url),
            TaggedEngine::Yandex(engine) => engine.verdict(url),
        }
    }

    proof fn lemma_request(&self, query: Seq<char>, options: SearchOptions) {
        match self {
            TaggedEngine::Bing(engine) => engine.lemma_request(query, options),
            TaggedEngine::Brave(engine) => engine.lemma_request(query, options),
            TaggedEngine::Google(engine) => engine.lemma_request(query, options),
            TaggedEngine::Mojeek(engine) => engine.lemma_request(query, options),
            TaggedEngine::Yahoo(engine) => engine.lemma_request(query, options),
            TaggedEngine::Yandex(engine) => engine.lemma_request(query, options),
        }
    }

    fn homepage(&self) -> (r: &'static str) {
        match self {
            TaggedEngine::Bing(engine) => engine.homepage(),
            TaggedEngine::Brave(engine) => engine.homepage(),
            TaggedEngine::Google(engine) => engine.homepage(),
            TaggedEngine::Mojeek(engine) => engine.homepage(),
            TaggedEngine::Yahoo(engine) => engine.homepage(),
            TaggedEngine::Yandex(engine) => engine.homepage(),
        }
    }

    fn url(&self, query: &str, options: &SearchOptions) -> (r: Result<String, SearchError>) {
        match self {
            TaggedEngine::Bing(engine) => engine.url(query, options),
            TaggedEngine::Brave(engine) => engine.url(query, options),
            TaggedEngine::Google(engine) => engine.url(query, options),
            TaggedEngine::Mojeek(engine) => engine.url(query, options),
            TaggedEngine::Yahoo(engine) => engine.url(query, options),
            TaggedEngine::Yandex(engine) => engine.url(query, options),
        }
    }

    fn headers(&self, headers: &mut HeaderMap<HeaderValue>, options: &SearchOptions, agent: usize) {
        match self {
            TaggedEngine::Bing(engine) => engine.headers(headers, options, agent),
            TaggedEngine::Brave(engine) => engine.headers(headers, options, agent),
            TaggedEngine::Google(engine) => engine.headers(headers, options, agent),
            TaggedEngine::Mojeek(engine) => engine.headers(headers, options, agent),
            TaggedEngine::Yahoo(engine) => engine.headers(headers, options, agent),
            TaggedEngine::Yandex(engine) => engine.headers(headers, options, agent),
        }
    }

    fn parser_mode(&self) -> (r: ParserMode) {
        match self {
            TaggedEngine::Bing(engine) => engine.parser_mode(),
            TaggedEngine::Brave(engine) => engine.parser_mode(),
            TaggedEngine::Google(engine) => engine.parser_mode(),
            TaggedEngine::Mojeek(engine) => engine.parser_mode(),
            TaggedEngine::Yahoo(engine) => engine.parser_mode(),
            TaggedEngine::Yandex(engine) => engine.parser_mode(),
        }
    }

    fn prepare(&self, body: String) -> (r: String) {
        match self {
            TaggedEngine::Bing(engine) => engine.prepare(body),
            TaggedEngine::Brave(engine) => engine.prepare(body),
            TaggedEngine::Google(engine) => engine.prepare(body),
            TaggedEngine::Mojeek(engine) => engine.prepare(body),
            TaggedEngine::Yahoo(engine) => engine.prepare(body),
            TaggedEngine::Yandex(engine) => engine.prepare(body),
        }
    }

    fn validate_final_url(&self, url: &FinalUrl) -> (r: Result<(), SearchError>) {
        match self {
            TaggedEngine::Bing(engine) => engine.validate_final_url(url),
            TaggedEngine::Brave(engine) => engine.validate_final_url(url),
            TaggedEngine::Google(engine) => engine.validate_final_url(url),
            TaggedEngine::Mojeek(engine) => engine.validate_final_url(url),
            TaggedEngine::Yahoo(engine) => engine.validate_final_url(url),
            TaggedEngine::Yandex(engine) => engine.validate_final_url(url),
        }
    }

    fn parse(&self, doc: &Document) -> (r: Result<Vec<(String, SearchResult)>, SearchError>) {
        match self {
            TaggedEngine::Bing(engine) => {
                let r = engine.parse(doc);
                proof {
                    match engine.candidates(doc@) {
                        Some(items) => lemma_gathered_alike(self, engine, doc@, items),
                        None => {},
                    }
                }
                r
            },
            TaggedEngine::Brave(engine) => {
                let r = engine.parse(doc);
                proof {
                    match engine.candidates(doc@) {
                        Some(items) => lemma_gathered_alike(self, engine, doc@, items),
                        None => {},
                    }
                }
                r
            },
            TaggedEngine::Google(engine) => {
                let r = engine.parse(doc);
                proof {
                    match engine.candidates(doc@) {
                        Some(items) => lemma_gathered_alike(self, engine, doc@, items),
                        None => {},
                    }
                }
                r
            },
            TaggedEngine::Mojeek(engine) => {
                let r = engine.parse(doc);
                proof {
                    match engine.candidates(doc@) {
                        Some(items) => lemma_gathered_alike(self, engine, doc@, items),
                        None => {},
                    }
                }
                r
            },
            TaggedEngine::Yahoo(engine) => {
                let r = engine.parse(doc);
                proof {
                    match engine.candidates(doc@) {
                        Some(items) => lemma_gathered_alike(self, engine, doc@, items),
                        None => {},
                    }
                }
                r
            },
            TaggedEngine::Yandex(engine) => {
                let r = engine.parse(doc);
                proof {
                    match engine.candidates(doc@) {
                        Some(items) => lemma_gathered_alike(self, engine, doc@, items),
                        None => {},
                    }
                }
                r
            },
        }
    }
}

} // verus!
