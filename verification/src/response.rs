//! What an adapter reads of a provider's response before it extracts
//! results: the address that the response finally came from.

use vstd::prelude::*;

verus! {

/// The address a response came from, after every redirection.
#[derive(Clone, Debug)]
pub struct FinalUrl {
    /// The host, where the address names one.
    pub host: Option<String>,
    /// The path, starting with `/`.
    pub path: String,
}

pub struct FinalUrlView {
    pub host: Option<Seq<char>>,
    pub path: Seq<char>,
}

impl View for FinalUrl {
    type V = FinalUrlView;

    open spec fn view(&self) -> FinalUrlView {
        FinalUrlView {
            host: match self.host {
                Some(h) => Some(h@),
                None => None,
            },
            path: self.path@,
        }
    }
}

} // verus!
