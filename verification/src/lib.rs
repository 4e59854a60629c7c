//! Adapters that turn the result pages of several web search providers into
//! one uniform list of results.
//!
//! Every adapter builds the request for a query (address and headers),
//! tells from the address that a response came from whether the provider
//! answered at all, and reads the results out of the parsed page.

use vstd::prelude::*;

pub mod agent;
pub mod bing;
pub mod brave;
pub mod document;
pub mod encode;
pub mod engine;
pub mod google;
pub mod headers;
pub mod mojeek;
pub mod registry;
pub mod response;
pub mod sanitize;
pub mod search;
pub mod text;
pub mod time;
pub mod yahoo;
pub mod yandex;

pub use crate::bing::BingEngine;
pub use crate::brave::BraveEngine;
pub use crate::google::{filter_search_param_in_result_url, GoogleEngine};
pub use crate::mojeek::MojeekEngine;
pub use crate::registry::TaggedEngine;
pub use crate::yahoo::{clean_url, YahooEngine};
pub use crate::yandex::YandexEngine;

verus! {

/// A list of the default engines.
pub fn default() -> (engines: [TaggedEngine; 6])
    ensures
        engines@ == seq![
            TaggedEngine::Bing(BingEngine),
            TaggedEngine::Brave(BraveEngine),
            TaggedEngine::Google(GoogleEngine),
            TaggedEngine::Mojeek(MojeekEngine),
            TaggedEngine::Yahoo(YahooEngine),
            TaggedEngine::Yandex(YandexEngine),
        ],
{
    [
        BingEngine::new(),
        BraveEngine::new(),
        GoogleEngine::new(),
        MojeekEngine::new(),
        YahooEngine::new(),
        YandexEngine::new(),
    ]
}

} // verus!
