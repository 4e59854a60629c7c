//! The header set of a request.
//!
//! The headers live in an `http::HeaderMap`. The contracts speak of what the
//! map holds through `header_fields`: for each header name, in lower case,
//! the values stored under it in the order in which they were added, each
//! value as the characters that its bytes stand for.

use vstd::prelude::*;
use http::{HeaderMap, HeaderValue};
use crate::search::SafeSearch;

verus! {

/// `http::HeaderMap`, of which the verifier sees nothing but
/// `header_fields`.
#[verifier::external_type_specification]
#[verifier::external_body]
#[verifier::reject_recursive_types(T)]
pub struct ExHeaderMap<T>(HeaderMap<T>);

/// `http::HeaderValue`, of which the verifier sees nothing.
#[verifier::external_type_specification]
#[verifier::external_body]
pub struct ExHeaderValue(HeaderValue);

/// What a header map holds: the values under each name, in the order added.
pub uninterp spec fn header_fields(headers: HeaderMap<HeaderValue>) -> Map<
    Seq<char>,
    Seq<Seq<char>>,
>;

/// A header set that holds nothing.
pub open spec fn no_fields() -> Map<Seq<char>, Seq<Seq<char>>> {
    Map::empty()
}

/// The header names that the adapters set.
pub open spec fn is_header_name(name: Seq<char>) -> bool {
    ||| name == "user-agent"@
    ||| name == "accept"@
    ||| name == "content-type"@
    ||| name == "cookie"@
    ||| name == "referer"@
}

/// Whether the character is printable ASCII, the space included.
pub open spec fn is_visible(c: char) -> bool {
    32 <= c as u32 && (c as u32) < 127
}

/// Whether a text can stand as a header value: printable ASCII throughout.
pub open spec fn is_header_text(text: Seq<char>) -> bool {
    forall|i: int| 0 <= i < text.len() ==> is_visible(#[trigger] text[i])
}

/// Whether the first `n` characters of a text are printable ASCII.
pub open spec fn visible_upto(text: Seq<char>, n: nat) -> bool
    decreases n,
{
    n == 0 || (is_visible(text[n - 1]) && visible_upto(text, (n - 1) as nat))
}

/// A text whose characters are printable one after the other is a header
/// text.
pub proof fn lemma_visible_upto(text: Seq<char>, n: nat)
    requires
        visible_upto(text, n),
    ensures
        forall|i: int| 0 <= i < n ==> is_visible(#[trigger] text[i]),
    decreases n,
{
    if n > 0 {
        lemma_visible_upto(text, (n - 1) as nat);
    }
}

/// The most names a map may hold for another one to be added safely.
pub const HEADER_NAMES_LIMIT: usize = 4096;

/// Whether `more` names can still be added to the fields.
pub open spec fn has_room(fields: Map<Seq<char>, Seq<Seq<char>>>, more: nat) -> bool {
    fields.dom().finite() && fields.dom().len() + more <= HEADER_NAMES_LIMIT
}

/// The fields after `value` has taken the place of all values of `name`.
pub open spec fn replaced(fields: Map<Seq<char>, Seq<Seq<char>>>, name: Seq<char>, value: Seq<char>)
    -> Map<Seq<char>, Seq<Seq<char>>> {
    fields.insert(name, seq![value])
}

/// The fields after `value` has been added behind the values of `name`.
pub open spec fn appended(fields: Map<Seq<char>, Seq<Seq<char>>>, name: Seq<char>, value: Seq<char>)
    -> Map<Seq<char>, Seq<Seq<char>>> {
    if fields.contains_key(name) {
        fields.insert(name, fields[name].push(value))
    } else {
        fields.insert(name, seq![value])
    }
}

/// Adding a value under one name takes the room of at most one name.
pub proof fn lemma_room(fields: Map<Seq<char>, Seq<Seq<char>>>, name: Seq<char>, value: Seq<char>, more: nat)
    requires
        has_room(fields, more),
        more >= 1,
    ensures
        has_room(replaced(fields, name, value), (more - 1) as nat),
        has_room(appended(fields, name, value), (more - 1) as nat),
{
    assert(replaced(fields, name, value).dom() =~= fields.dom().insert(name));
    assert(appended(fields, name, value).dom() =~= fields.dom().insert(name));
}

/// `HeaderMap::new`: a map that holds nothing.
#[verifier::external_body]
pub(crate) fn new_header_map() -> (r: HeaderMap<HeaderValue>)
    ensures
        header_fields(r) == no_fields(),
{
    HeaderMap::new()
}

/// `HeaderMap::insert` with a value made by `HeaderValue::from_str`: the value
/// replaces whatever the map held under the name. The map panics when its
/// capacity would pass 2^15 slots, which it cannot while it holds fewer than
/// `HEADER_NAMES_LIMIT` names; the value is accepted because it is printable
/// ASCII.
#[verifier::external_body]
pub(crate) fn insert_header(headers: &mut HeaderMap<HeaderValue>, name: &'static str, value: &str)
    requires
        is_header_name(name@),
        is_header_text(value@),
        has_room(header_fields(*old(headers)), 1),
    ensures
        header_fields(*final(headers)) == replaced(header_fields(*old(headers)), name@, value@),
{
    headers.insert(name, HeaderValue::from_str(value).unwrap());
}

/// `HeaderMap::append` with a value made by `HeaderValue::from_str`: the value
/// is added behind those that the map holds under the name. Panics are
/// excluded as for `insert_header`.
#[verifier::external_body]
pub(crate) fn append_header(headers: &mut HeaderMap<HeaderValue>, name: &'static str, value: &str)
    requires
        is_header_name(name@),
        is_header_text(value@),
        has_room(header_fields(*old(headers)), 1),
    ensures
        header_fields(*final(headers)) == appended(header_fields(*old(headers)), name@, value@),
{
    headers.append(name, HeaderValue::from_str(value).unwrap());
}

/// What a browser accepts when it asks for a page.
pub fn accept_html() -> (r: &'static str)
    ensures
        r@ == "text/html,application/xhtml+xml,application/xml;q=0.9,*/*;q=0.8"@,
        is_header_text(r@),
{
    let r = "text/html,application/xhtml+xml,application/xml;q=0.9,*/*;q=0.8";
    proof {
        reveal_strlit("text/html,application/xhtml+xml,application/xml;q=0.9,*/*;q=0.8");
        reveal_with_fuel(visible_upto, 30);
        assert(r@.len() == 63);
        assert(visible_upto(r@, 25));
        assert(visible_upto(r@, 50));
        assert(visible_upto(r@, 63));
        lemma_visible_upto(r@, 63);
    }
    r
}

/// The media type of a submitted form.
pub fn form_urlencoded() -> (r: &'static str)
    ensures
        r@ == "application/x-www-form-urlencoded"@,
        is_header_text(r@),
{
    let r = "application/x-www-form-urlencoded";
    proof {
        reveal_strlit("application/x-www-form-urlencoded");
        reveal_with_fuel(visible_upto, 30);
        assert(r@.len() == 33);
        assert(visible_upto(r@, 25));
        assert(visible_upto(r@, 33));
        lemma_visible_upto(r@, 33);
    }
    r
}

/// Every media type.
pub fn accept_all() -> (r: &'static str)
    ensures
        r@ == "*/*"@,
        is_header_text(r@),
{
    let r = "*/*";
    proof {
        reveal_strlit("*/*");
        reveal_with_fuel(visible_upto, 30);
        assert(r@.len() == 3);
        assert(visible_upto(r@, 3));
        lemma_visible_upto(r@, 3);
    }
    r
}

/// The address that requests claim to come from.
pub fn referer_google() -> (r: &'static str)
    ensures
        r@ == "https://google.com/"@,
        is_header_text(r@),
{
    let r = "https://google.com/";
    proof {
        reveal_strlit("https://google.com/");
        reveal_with_fuel(visible_upto, 30);
        assert(r@.len() == 19);
        assert(visible_upto(r@, 19));
        lemma_visible_upto(r@, 19);
    }
    r
}

/// The cookie that tells a provider the safe-search level.
pub fn safe_search_cookie(level: SafeSearch) -> (r: &'static str)
    ensures
        r@ == "safe_search="@ + level.word(),
        is_header_text(r@),
{
    proof {
        reveal_strlit("safe_search=");
        reveal_strlit("off");
        reveal_strlit("moderate");
        reveal_strlit("strict");
        reveal_strlit("safe_search=off");
        reveal_strlit("safe_search=moderate");
        reveal_strlit("safe_search=strict");
        reveal_with_fuel(visible_upto, 30);
    }
    match level {
        SafeSearch::Off => {
            let r = "safe_search=off";
            proof {
                assert(r@ =~= "safe_search="@ + "off"@);
                assert(visible_upto(r@, 15));
                lemma_visible_upto(r@, 15);
            }
            r
        },
        SafeSearch::Moderate => {
            let r = "safe_search=moderate";
            proof {
                assert(r@ =~= "safe_search="@ + "moderate"@);
                assert(visible_upto(r@, 20));
                lemma_visible_upto(r@, 20);
            }
            r
        },
        SafeSearch::Strict => {
            let r = "safe_search=strict";
            proof {
                assert(r@ =~= "safe_search="@ + "strict"@);
                assert(visible_upto(r@, 18));
                lemma_visible_upto(r@, 18);
            }
            r
        },
    }
}

/// The cookie that answers Google's consent dialogue.
pub fn google_consent_cookie() -> (r: &'static str)
    ensures
        r@ == "SOCS=CAESHAgBEhIaAB"@,
        is_header_text(r@),
{
    let r = "SOCS=CAESHAgBEhIaAB";
    proof {
        reveal_strlit("SOCS=CAESHAgBEhIaAB");
        reveal_with_fuel(visible_upto, 30);
        assert(r@.len() == 19);
        assert(visible_upto(r@, 19));
        lemma_visible_upto(r@, 19);
    }
    r
}

/// The cookie that tells Bing a visitor has been there before.
pub fn bing_region_cookie() -> (r: &'static str)
    ensures
        r@ == "_EDGE_V=1; SRCHD=AF=NOFORM; _Rwho=u=d; bngps=s=0; _UR=QS=0&TQS=0; "@,
        is_header_text(r@),
{
    let r = "_EDGE_V=1; SRCHD=AF=NOFORM; _Rwho=u=d; bngps=s=0; _UR=QS=0&TQS=0; ";
    proof {
        reveal_strlit("_EDGE_V=1; SRCHD=AF=NOFORM; _Rwho=u=d; bngps=s=0; _UR=QS=0&TQS=0; ");
        reveal_with_fuel(visible_upto, 30);
        assert(r@.len() == 66);
        assert(visible_upto(r@, 25));
        assert(visible_upto(r@, 50));
        assert(visible_upto(r@, 66));
        lemma_visible_upto(r@, 66);
    }
    r
}

} // verus!
