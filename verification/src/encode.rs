//! Percent-encoding and the assembly of URL query strings.
//!
//! A query string is built from an ordered list of name/value pairs. Every
//! name and value is percent-encoded byte by byte over its UTF-8 form: the
//! unreserved characters of RFC 3986 stand for themselves, every other byte
//! becomes `%` followed by two upper-case hexadecimal digits. Pairs are joined
//! by `&` in the order in which they were added; a name that carries several
//! values is written once per value, as a pair of its own.

use vstd::prelude::*;
use vstd::utf8::*;
use vstd::string::*;
use crate::sanitize::{
    free_of, lemma_position_is, lemma_split_concat, param_name, param_value, parameters, split,
};
use crate::text::{decimal, digit_char, push_decimal, push_signed_decimal, signed_decimal, strs};

verus! {

/// Whether the byte is an unreserved URL character: an ASCII letter or digit,
/// or one of `-`, `.`, `_`, `~`.
pub open spec fn is_unreserved(b: u8) -> bool {
    ||| 0x41 <= b <= 0x5a
    ||| 0x61 <= b <= 0x7a
    ||| 0x30 <= b <= 0x39
    ||| b == 0x2d
    ||| b == 0x2e
    ||| b == 0x5f
    ||| b == 0x7e
}

/// The upper-case hexadecimal digit for `d`.
pub open spec fn hex_char(d: int) -> char {
    if d < 10 {
        digit_char(d)
    } else if d == 10 {
        'A'
    } else if d == 11 {
        'B'
    } else if d == 12 {
        'C'
    } else if d == 13 {
        'D'
    } else if d == 14 {
        'E'
    } else {
        'F'
    }
}

/// The encoding of one byte.
pub open spec fn encoded_byte(b: u8) -> Seq<char> {
    if is_unreserved(b) {
        seq![b as char]
    } else {
        seq!['%', hex_char(b as int / 16), hex_char(b as int % 16)]
    }
}

/// The encoding of a byte string: the encodings of its bytes, in order.
pub open spec fn percent_encoded(bytes: Seq<u8>) -> Seq<char>
    decreases bytes.len(),
{
    if bytes.len() == 0 {
        Seq::empty()
    } else {
        percent_encoded(bytes.drop_last()) + encoded_byte(bytes.last())
    }
}

/// The encoding of a text: that of its UTF-8 bytes.
pub open spec fn encoded(text: Seq<char>) -> Seq<char> {
    percent_encoded(encode_utf8(text))
}

/// One `name=value` pair of a query string.
pub open spec fn pair_text(pair: (Seq<char>, Seq<char>)) -> Seq<char> {
    encoded(pair.0) + seq!['='] + encoded(pair.1)
}

/// The query string of a list of pairs.
pub open spec fn query_string(pairs: Seq<(Seq<char>, Seq<char>)>) -> Seq<char>
    decreases pairs.len(),
{
    if pairs.len() == 0 {
        Seq::empty()
    } else if pairs.len() == 1 {
        pair_text(pairs[0])
    } else {
        query_string(pairs.drop_last()) + seq!['&'] + pair_text(pairs.last())
    }
}

/// Whether the encoder writes the character: `%` or an unreserved one.
pub open spec fn is_encoded_char(c: char) -> bool {
    let u = c as u32;
    ||| c == '%'
    ||| 0x41 <= u <= 0x5a
    ||| 0x61 <= u <= 0x7a
    ||| 0x30 <= u <= 0x39
    ||| u == 0x2d
    ||| u == 0x2e
    ||| u == 0x5f
    ||| u == 0x7e
}

/// The value of a hexadecimal digit.
pub open spec fn hex_value(c: char) -> int {
    if c == 'A' {
        10
    } else if c == 'B' {
        11
    } else if c == 'C' {
        12
    } else if c == 'D' {
        13
    } else if c == 'E' {
        14
    } else if c == 'F' {
        15
    } else {
        c as u32 - 0x30
    }
}

/// The bytes that a percent-encoded text stands for: `%` and two
/// hexadecimal digits give one byte, every other character its own.
pub open spec fn percent_decoded(text: Seq<char>) -> Seq<u8>
    decreases text.len(),
{
    if text.len() == 0 {
        Seq::empty()
    } else if text[0] == '%' && text.len() >= 3 {
        seq![(hex_value(text[1]) * 16 + hex_value(text[2])) as u8] + percent_decoded(text.skip(3))
    } else {
        seq![text[0] as u8] + percent_decoded(text.skip(1))
    }
}

/// The encoder writes nothing but `%` and unreserved characters.
pub proof fn lemma_encoded_chars(bytes: Seq<u8>)
    ensures
        forall|i: int|
            0 <= i < percent_encoded(bytes).len() ==> is_encoded_char(
                #[trigger] percent_encoded(bytes)[i],
            ),
    decreases bytes.len(),
{
    if bytes.len() > 0 {
        lemma_encoded_chars(bytes.drop_last());
        let b = bytes.last();
        let init = percent_encoded(bytes.drop_last());
        let whole = percent_encoded(bytes);
        assert((b as char) as u32 == b);
        assert(forall|i: int|
            0 <= i < encoded_byte(b).len() ==> is_encoded_char(#[trigger] encoded_byte(b)[i]));
        assert forall|i: int| 0 <= i < whole.len() implies is_encoded_char(#[trigger] whole[i]) by {
            if i < init.len() {
                assert(whole[i] == init[i]);
            } else {
                assert(whole[i] == encoded_byte(b)[i - init.len()]);
            }
        }
    }
}

/// The hexadecimal digits read back as the numbers they were written for.
pub proof fn lemma_hex_value(d: int)
    requires
        0 <= d < 16,
    ensures
        hex_value(hex_char(d)) == d,
{
}

/// Decoding reads one encoded byte back and goes on behind it.
pub proof fn lemma_decoded_byte(b: u8, rest: Seq<char>)
    ensures
        percent_decoded(encoded_byte(b) + rest) == seq![b] + percent_decoded(rest),
{
    let text = encoded_byte(b) + rest;
    if is_unreserved(b) {
        assert(text[0] == b as char);
        assert(text.skip(1) =~= rest);
    } else {
        lemma_hex_value(b as int / 16);
        lemma_hex_value(b as int % 16);
        assert(text[0] == '%');
        assert(text[1] == hex_char(b as int / 16));
        assert(text[2] == hex_char(b as int % 16));
        assert(text.skip(3) =~= rest);
    }
}

/// Decoding reads an encoded byte string back and goes on behind it.
pub proof fn lemma_decoded_prefix(bytes: Seq<u8>, rest: Seq<char>)
    ensures
        percent_decoded(percent_encoded(bytes) + rest) == bytes + percent_decoded(rest),
    decreases bytes.len(),
{
    if bytes.len() == 0 {
        assert(percent_encoded(bytes) + rest =~= rest);
        assert(bytes + percent_decoded(rest) =~= percent_decoded(rest));
    } else {
        let init = bytes.drop_last();
        let b = bytes.last();
        assert(percent_encoded(bytes) + rest =~= percent_encoded(init) + (encoded_byte(b) + rest));
        lemma_decoded_prefix(init, encoded_byte(b) + rest);
        lemma_decoded_byte(b, rest);
        assert(init + (seq![b] + percent_decoded(rest)) =~= bytes + percent_decoded(rest));
    }
}

/// Decoding undoes encoding.
pub proof fn lemma_decoding_inverts_encoding(bytes: Seq<u8>)
    ensures
        percent_decoded(percent_encoded(bytes)) == bytes,
{
    lemma_decoded_prefix(bytes, Seq::empty());
    assert(percent_encoded(bytes) + Seq::<char>::empty() =~= percent_encoded(bytes));
    assert(bytes + percent_decoded(Seq::<char>::empty()) =~= bytes);
}

/// An encoded text can be read back exactly: its decoding is the UTF-8 form
/// of the text.
pub proof fn lemma_encoded_text_is_recoverable(text: Seq<char>)
    ensures
        decode_utf8(percent_decoded(encoded(text))) == text,
{
    lemma_decoding_inverts_encoding(encode_utf8(text));
    encode_utf8_decode_utf8(text);
}

/// The UTF-8 form of two texts in a row is the two forms in a row.
pub proof fn lemma_utf8_concat(a: Seq<char>, b: Seq<char>)
    ensures
        encode_utf8(a + b) == encode_utf8(a) + encode_utf8(b),
    decreases a.len(),
{
    if a.len() == 0 {
        assert(a + b =~= b);
        assert(encode_utf8(a) + encode_utf8(b) =~= encode_utf8(b));
    } else {
        assert((a + b).drop_first() =~= a.drop_first() + b);
        lemma_utf8_concat(a.drop_first(), b);
        assert(encode_scalar(a[0] as u32) + (encode_utf8(a.drop_first()) + encode_utf8(b))
            =~= encode_utf8(a) + encode_utf8(b));
    }
}

/// The encoding of two byte strings in a row is the two encodings in a row.
pub proof fn lemma_percent_encoded_concat(a: Seq<u8>, b: Seq<u8>)
    ensures
        percent_encoded(a + b) == percent_encoded(a) + percent_encoded(b),
    decreases b.len(),
{
    if b.len() == 0 {
        assert(a + b =~= a);
        assert(percent_encoded(a) + percent_encoded(b) =~= percent_encoded(a));
    } else {
        assert((a + b).drop_last() =~= a + b.drop_last());
        lemma_percent_encoded_concat(a, b.drop_last());
        assert(percent_encoded(a) + percent_encoded(b.drop_last()) + encoded_byte(b.last())
            =~= percent_encoded(a) + percent_encoded(b));
    }
}

/// The encoding of two texts in a row is the two encodings in a row.
pub proof fn lemma_encoded_concat(a: Seq<char>, b: Seq<char>)
    ensures
        encoded(a + b) == encoded(a) + encoded(b),
{
    lemma_utf8_concat(a, b);
    lemma_percent_encoded_concat(encode_utf8(a), encode_utf8(b));
}

/// Whether the character may stand in the URL of a request: an unreserved
/// or a reserved character other than `#`, which would begin a fragment, or
/// `%`.
pub open spec fn is_url_char(c: char) -> bool {
    let u = c as u32;
    ||| 0x41 <= u <= 0x5a
    ||| 0x61 <= u <= 0x7a
    ||| 0x30 <= u <= 0x39
    ||| u == 0x21
    ||| 0x24 <= u <= 0x2f
    ||| u == 0x3a
    ||| u == 0x3b
    ||| u == 0x3d
    ||| u == 0x3f
    ||| u == 0x40
    ||| u == 0x5b
    ||| u == 0x5d
    ||| u == 0x5f
    ||| u == 0x7e
}

/// Whether a text holds nothing but characters that may stand in the URL of
/// a request.
pub open spec fn is_url_text(text: Seq<char>) -> bool {
    forall|i: int| 0 <= i < text.len() ==> is_url_char(#[trigger] text[i])
}

/// Whether the first `n` characters of a text may stand in a URL.
pub open spec fn url_text_upto(text: Seq<char>, n: nat) -> bool
    decreases n,
{
    n == 0 || (is_url_char(text[n - 1]) && url_text_upto(text, (n - 1) as nat))
}

/// A text whose characters may stand in a URL one after the other is a URL
/// text.
pub proof fn lemma_url_text_upto(text: Seq<char>)
    requires
        url_text_upto(text, text.len()),
    ensures
        is_url_text(text),
{
    lemma_url_chars_upto(text, text.len());
}

proof fn lemma_url_chars_upto(text: Seq<char>, n: nat)
    requires
        url_text_upto(text, n),
    ensures
        forall|i: int| 0 <= i < n ==> is_url_char(#[trigger] text[i]),
    decreases n,
{
    if n > 0 {
        lemma_url_chars_upto(text, (n - 1) as nat);
    }
}

/// Two URL texts in a row are a URL text.
pub proof fn lemma_url_text_concat(a: Seq<char>, b: Seq<char>)
    requires
        is_url_text(a),
        is_url_text(b),
    ensures
        is_url_text(a + b),
{
    assert forall|i: int| 0 <= i < (a + b).len() implies is_url_char(#[trigger] (a + b)[i]) by {
        if i < a.len() {
            assert((a + b)[i] == a[i]);
        } else {
            assert((a + b)[i] == b[i - a.len()]);
        }
    }
}

/// An encoded text is a URL text.
pub proof fn lemma_encoded_is_url_text(text: Seq<char>)
    ensures
        is_url_text(encoded(text)),
{
    lemma_encoded_chars(encode_utf8(text));
    let e = encoded(text);
    assert forall|i: int| 0 <= i < e.len() implies is_url_char(#[trigger] e[i]) by {
        assert(is_encoded_char(percent_encoded(encode_utf8(text))[i]));
    }
}

/// A query string is a URL text.
pub proof fn lemma_query_string_is_url_text(pairs: Seq<(Seq<char>, Seq<char>)>)
    ensures
        is_url_text(query_string(pairs)),
    decreases pairs.len(),
{
    if pairs.len() > 0 {
        let last = pairs.last();
        lemma_encoded_is_url_text(last.0);
        lemma_encoded_is_url_text(last.1);
        lemma_url_text_concat(encoded(last.0), seq!['=']);
        lemma_url_text_concat(encoded(last.0) + seq!['='], encoded(last.1));
        if pairs.len() > 1 {
            lemma_query_string_is_url_text(pairs.drop_last());
            lemma_url_text_concat(query_string(pairs.drop_last()), seq!['&']);
            lemma_url_text_concat(query_string(pairs.drop_last()) + seq!['&'], pair_text(last));
        }
    }
}

/// Whether the first `n` characters of a text are other than `c`.
pub open spec fn free_upto(text: Seq<char>, c: char, n: nat) -> bool
    decreases n,
{
    n == 0 || (text[n - 1] != c && free_upto(text, c, (n - 1) as nat))
}

/// A text whose characters are other than `c` one after the other holds no
/// `c`.
pub proof fn lemma_free_upto(text: Seq<char>, c: char, n: nat)
    requires
        free_upto(text, c, n),
    ensures
        forall|i: int| 0 <= i < n ==> text[i] != c,
    decreases n,
{
    if n > 0 {
        lemma_free_upto(text, c, (n - 1) as nat);
    }
}

/// An encoded text holds no character that the encoder does not write.
pub proof fn lemma_encoded_free_of(text: Seq<char>, c: char)
    requires
        !is_encoded_char(c),
    ensures
        free_of(encoded(text), c),
{
    lemma_encoded_chars(encode_utf8(text));
    let e = encoded(text);
    assert forall|i: int| 0 <= i < e.len() implies e[i] != c by {
        assert(is_encoded_char(percent_encoded(encode_utf8(text))[i]));
    }
}

/// A pair reads back as the encoded name before its `=` and the encoded
/// value behind it, and holds no `&`.
pub proof fn lemma_pair_text(pair: (Seq<char>, Seq<char>))
    ensures
        param_name(pair_text(pair)) == encoded(pair.0),
        param_value(pair_text(pair)) == encoded(pair.1),
        free_of(pair_text(pair), '&'),
{
    let name = encoded(pair.0);
    let value = encoded(pair.1);
    let text = pair_text(pair);
    lemma_encoded_free_of(pair.0, '=');
    lemma_encoded_free_of(pair.0, '&');
    lemma_encoded_free_of(pair.1, '&');
    assert forall|i: int| 0 <= i < name.len() implies text[i] != '=' by {
        assert(text[i] == name[i]);
    }
    assert(text[name.len() as int] == '=');
    lemma_position_is(text, '=', name.len() as int);
    assert(text.take(name.len() as int) =~= name);
    assert(text.skip(name.len() as int + 1) =~= value);
    assert forall|i: int| 0 <= i < text.len() implies text[i] != '&' by {
        if i < name.len() {
            assert(text[i] == name[i]);
        } else if i > name.len() {
            assert(text[i] == value[i - name.len() - 1]);
        }
    }
}

/// The pairs of a list as they are written.
pub open spec fn pair_texts(pairs: Seq<(Seq<char>, Seq<char>)>) -> Seq<Seq<char>> {
    Seq::new(pairs.len(), |i: int| pair_text(pairs[i]))
}

/// Split at its `&`, a query string falls into its pairs.
pub proof fn lemma_split_query_string(pairs: Seq<(Seq<char>, Seq<char>)>)
    requires
        pairs.len() >= 1,
    ensures
        split(query_string(pairs), '&') == pair_texts(pairs),
    decreases pairs.len(),
{
    let last = pair_text(pairs.last());
    lemma_pair_text(pairs.last());
    lemma_position_is(last, '&', last.len() as int);
    assert(split(last, '&') == seq![last]);
    if pairs.len() == 1 {
        assert(seq![last] =~= pair_texts(pairs));
    } else {
        let init = pairs.drop_last();
        lemma_split_query_string(init);
        lemma_split_concat(query_string(init), last, '&');
        assert(pair_texts(init) + seq![last] =~= pair_texts(pairs));
    }
}

/// The URL of a request: the address, `?`, and the query string of the
/// parameters.
pub open spec fn request_text(address: Seq<char>, params: Seq<(Seq<char>, Seq<char>)>) -> Seq<char> {
    address + seq!['?'] + query_string(params)
}

/// The URL of a request is a URL text, and its parameters, read back, are
/// the parameters of the request as they are written, in their order.
pub proof fn lemma_request_text(address: Seq<char>, params: Seq<(Seq<char>, Seq<char>)>)
    requires
        is_url_text(address),
        free_of(address, '?'),
        params.len() >= 1,
    ensures
        is_url_text(request_text(address, params)),
        parameters(request_text(address, params)) == pair_texts(params),
{
    let url = request_text(address, params);
    let query = query_string(params);
    lemma_query_string_is_url_text(params);
    lemma_url_text_concat(address, seq!['?']);
    lemma_url_text_concat(address + seq!['?'], query);
    assert forall|i: int| 0 <= i < url.len() implies url[i] != '#' by {
        assert(is_url_char(url[i]));
    }
    lemma_position_is(url, '#', url.len() as int);
    assert(url.take(url.len() as int) =~= url);
    assert forall|i: int| 0 <= i < address.len() implies url[i] != '?' by {
        assert(url[i] == address[i]);
    }
    assert(url[address.len() as int] == '?');
    lemma_position_is(url, '?', address.len() as int);
    assert(url.skip(address.len() as int + 1) =~= query);
    lemma_split_query_string(params);
}

fn hex_digit(d: u8) -> (c: char)
    requires
        d < 16,
    ensures
        c == hex_char(d as int),
{
    if d < 10 {
        crate::text::digit(d)
    } else if d == 10 {
        'A'
    } else if d == 11 {
        'B'
    } else if d == 12 {
        'C'
    } else if d == 13 {
        'D'
    } else if d == 14 {
        'E'
    } else {
        'F'
    }
}

fn unreserved(b: u8) -> (r: bool)
    ensures
        r == is_unreserved(b),
{
    (0x41 <= b && b <= 0x5a) || (0x61 <= b && b <= 0x7a) || (0x30 <= b && b <= 0x39) || b == 0x2d
        || b == 0x2e || b == 0x5f || b == 0x7e
}

/// Appends the percent-encoding of `text` to `out`.
pub fn push_encoded(out: &mut String, text: &str)
    ensures
        final(out)@ == old(out)@ + encoded(text@),
{
    let bytes = text.as_bytes();
    let mut i: usize = 0;
    assert(bytes@.take(0) =~= Seq::<u8>::empty());
    assert(out@ =~= old(out)@ + percent_encoded(bytes@.take(0)));
    while i < bytes.len()
        invariant
            i <= bytes.len(),
            bytes@ == encode_utf8(text@),
            out@ == old(out)@ + percent_encoded(bytes@.take(i as int)),
        decreases bytes.len() - i,
    {
        let b: u8 = bytes[i];
        let ghost before = out@;
        if unreserved(b) {
            out.push(b as char);
        } else {
            out.push('%');
            out.push(hex_digit(b / 16));
            out.push(hex_digit(b % 16));
        }
        proof {
            let next = bytes@.take(i + 1);
            assert(next.drop_last() =~= bytes@.take(i as int));
            assert(next.last() == b);
            assert(out@ =~= before + encoded_byte(b));
            assert(out@ =~= old(out)@ + percent_encoded(next));
        }
        i += 1;
    }
    assert(bytes@.take(bytes.len() as int) =~= bytes@);
}

/// The percent-encoding of `text`.
pub fn encode(text: &str) -> (r: String)
    ensures
        r@ == encoded(text@),
{
    let mut r = String::new();
    push_encoded(&mut r, text);
    assert(r@ =~= encoded(text@));
    r
}

/// One pair under `name` for each of `values`, in their order.
pub open spec fn repeated(name: Seq<char>, values: Seq<Seq<char>>) -> Seq<(Seq<char>, Seq<char>)> {
    Seq::new(values.len(), |i: int| (name, values[i]))
}

/// A query string under construction. A name may be added more than once:
/// every pair is written, in the order in which it was added.
pub struct QueryParams {
    text: String,
    pairs: Ghost<Seq<(Seq<char>, Seq<char>)>>,
    started: bool,
}

impl View for QueryParams {
    type V = Seq<(Seq<char>, Seq<char>)>;

    closed spec fn view(&self) -> Seq<(Seq<char>, Seq<char>)> {
        self.pairs@
    }
}

impl QueryParams {
    #[verifier::type_invariant]
    spec fn consistent(&self) -> bool {
        &&& self.text@ == query_string(self.pairs@)
        &&& self.started == (self.pairs@.len() > 0)
    }

    /// A query string without pairs.
    pub fn new() -> (r: QueryParams)
        ensures
            r@ == Seq::<(Seq<char>, Seq<char>)>::empty(),
    {
        QueryParams { text: String::new(), pairs: Ghost(Seq::empty()), started: false }
    }

    /// Adds the pair `name=value`.
    pub fn add(&mut self, name: &str, value: &str)
        ensures
            final(self)@ == old(self)@.push((name@, value@)),
    {
        proof {
            use_type_invariant(&*self);
        }
        let mut text = String::new();
        text.append(self.text.as_str());
        if self.started {
            text.push('&');
        }
        push_encoded(&mut text, name);
        text.push('=');
        push_encoded(&mut text, value);
        let ghost pairs = self.pairs@.push((name@, value@));
        proof {
            assert(pairs.drop_last() =~= self.pairs@);
            assert(text@ =~= query_string(pairs));
        }
        *self = QueryParams { text, pairs: Ghost(pairs), started: true };
    }

    /// Adds the pair `name=n`, the number in decimal notation.
    pub fn add_number(&mut self, name: &str, n: u128)
        ensures
            final(self)@ == old(self)@.push((name@, decimal(n as nat))),
    {
        let mut value = String::new();
        push_decimal(&mut value, n);
        assert(value@ =~= decimal(n as nat));
        self.add(name, value.as_str());
    }

    /// Adds the pair `name=n`, the number in decimal notation with its sign.
    pub fn add_signed_number(&mut self, name: &str, n: i64)
        ensures
            final(self)@ == old(self)@.push((name@, signed_decimal(n as int))),
    {
        let mut value = String::new();
        push_signed_decimal(&mut value, n);
        assert(value@ =~= signed_decimal(n as int));
        self.add(name, value.as_str());
    }

    /// Adds one pair for each of `values`, all under `name`, in their
    /// order.
    pub fn add_list(&mut self, name: &str, values: &Vec<&'static str>)
        ensures
            final(self)@ == old(self)@ + repeated(name@, strs(values@)),
    {
        let ghost all = strs(values@);
        let mut i: usize = 0;
        assert(self@ =~= old(self)@ + repeated(name@, all.take(0)));
        while i < values.len()
            invariant
                i <= values.len(),
                all == strs(values@),
                self@ == old(self)@ + repeated(name@, all.take(i as int)),
            decreases values.len() - i,
        {
            self.add(name, values[i]);
            assert(self@ =~= old(self)@ + repeated(name@, all.take(i + 1)));
            i += 1;
        }
        assert(all.take(values.len() as int) =~= all);
    }

    /// The query string of the pairs added so far.
    pub fn finish(self) -> (r: String)
        ensures
            r@ == query_string(self@),
    {
        proof {
            use_type_invariant(&self);
        }
        self.text
    }
}

} // verus!
