//! Removal of unwanted query parameters from result URLs.
//!
//! A URL is read as `base?query#fragment`. The fragment starts at the first
//! `#`; the query starts after the first `?` that comes before the fragment
//! and is a list of parameters separated by `&`, each a name, optionally
//! followed by `=` and a value. Parameters that the filter flags are removed,
//! everything else stays as it was written. A URL without a query is returned
//! unchanged, whatever else it holds.

use vstd::prelude::*;
use crate::text::{from_chars, from_range, push_range, to_chars};

verus! {

/// A predicate over the name and the value of a query parameter.
pub trait ParamFilter {
    /// Whether the parameter is to be removed.
    spec fn flags(&self, name: Seq<char>, value: Seq<char>) -> bool;

    /// Whether the parameter is to be removed.
    fn test(&self, name: &str, value: &str) -> (b: bool)
        ensures
            b == self.flags(name@, value@),
    ;
}

/// The position of the first `c` in `s`, or the length of `s` when it holds
/// none.
pub open spec fn position(s: Seq<char>, c: char) -> int
    decreases s.len(),
{
    if s.len() == 0 {
        0
    } else if s[0] == c {
        0
    } else {
        1 + position(s.drop_first(), c)
    }
}

/// The pieces of `s` between the separators `sep`.
pub open spec fn split(s: Seq<char>, sep: char) -> Seq<Seq<char>>
    decreases s.len(),
{
    let p = position(s, sep);
    if 0 <= p < s.len() {
        seq![s.take(p)] + split(s.skip(p + 1), sep)
    } else {
        seq![s]
    }
}

/// The pieces joined by the separator `sep`.
pub open spec fn join(pieces: Seq<Seq<char>>, sep: char) -> Seq<char>
    decreases pieces.len(),
{
    if pieces.len() == 0 {
        Seq::empty()
    } else if pieces.len() == 1 {
        pieces[0]
    } else {
        join(pieces.drop_last(), sep) + seq![sep] + pieces.last()
    }
}

/// The name of a parameter: what stands before its first `=`.
pub open spec fn param_name(param: Seq<char>) -> Seq<char> {
    param.take(position(param, '='))
}

/// The value of a parameter: what stands after its first `=`, empty when it
/// has none.
pub open spec fn param_value(param: Seq<char>) -> Seq<char> {
    let e = position(param, '=');
    if 0 <= e < param.len() {
        param.skip(e + 1)
    } else {
        Seq::empty()
    }
}

/// The parameters that the filter does not flag, in their order.
pub open spec fn kept<F: ParamFilter>(params: Seq<Seq<char>>, filter: &F) -> Seq<Seq<char>>
    decreases params.len(),
{
    if params.len() == 0 {
        Seq::empty()
    } else {
        let before = kept(params.drop_last(), filter);
        let p = params.last();
        if filter.flags(param_name(p), param_value(p)) {
            before
        } else {
            before.push(p)
        }
    }
}

/// The URL without the query parameters that the filter flags.
pub open spec fn sanitized<F: ParamFilter>(url: Seq<char>, filter: &F) -> Seq<char> {
    let h = position(url, '#');
    let head = url.take(h);
    let fragment = url.skip(h);
    let q = position(head, '?');
    if 0 <= q < head.len() {
        let params = kept(split(head.skip(q + 1), '&'), filter);
        if params.len() == 0 {
            head.take(q) + fragment
        } else {
            head.take(q) + seq!['?'] + join(params, '&') + fragment
        }
    } else {
        url
    }
}

/// The views of a list of character vectors.
pub open spec fn views(v: Seq<Vec<char>>) -> Seq<Seq<char>> {
    Seq::new(v.len(), |i: int| v[i]@)
}

/// `position` lies within the sequence, points at the character where it
/// found one, and nothing before it is that character.
pub proof fn lemma_position(s: Seq<char>, c: char)
    ensures
        0 <= position(s, c) <= s.len(),
        position(s, c) < s.len() ==> s[position(s, c)] == c,
        forall|i: int| 0 <= i < position(s, c) ==> s[i] != c,
    decreases s.len(),
{
    if s.len() > 0 && s[0] != c {
        let rest = s.drop_first();
        lemma_position(rest, c);
        assert forall|i: int| 0 <= i < position(s, c) implies s[i] != c by {
            if i > 0 {
                assert(s[i] == rest[i - 1]);
            }
        }
    }
}

/// A position with the character at it and none before it is `position`.
pub proof fn lemma_position_is(s: Seq<char>, c: char, p: int)
    requires
        0 <= p <= s.len(),
        p < s.len() ==> s[p] == c,
        forall|i: int| 0 <= i < p ==> s[i] != c,
    ensures
        position(s, c) == p,
    decreases s.len(),
{
    if s.len() > 0 && p > 0 {
        let rest = s.drop_first();
        assert(s[0] != c);
        assert forall|i: int| 0 <= i < p - 1 implies rest[i] != c by {
            assert(rest[i] == s[i + 1]);
        }
        lemma_position_is(rest, c, p - 1);
    }
}

/// Whether `s` holds no `c`.
pub open spec fn free_of(s: Seq<char>, c: char) -> bool {
    forall|i: int| 0 <= i < s.len() ==> s[i] != c
}

/// Whether none of the pieces holds a `c`.
pub open spec fn all_free_of(pieces: Seq<Seq<char>>, c: char) -> bool {
    forall|i: int| 0 <= i < pieces.len() ==> free_of(#[trigger] pieces[i], c)
}

/// Whether the filter flags none of the parameters.
pub open spec fn none_flagged<F: ParamFilter>(params: Seq<Seq<char>>, filter: &F) -> bool {
    forall|i: int|
        0 <= i < params.len() ==> !filter.flags(
            param_name(#[trigger] params[i]),
            param_value(params[i]),
        )
}

/// Splitting yields at least one piece, no piece holds the separator, and no
/// piece holds a character that the whole does not hold.
pub proof fn lemma_split_pieces(s: Seq<char>, sep: char, c: char)
    ensures
        split(s, sep).len() >= 1,
        all_free_of(split(s, sep), sep),
        free_of(s, c) ==> all_free_of(split(s, sep), c),
    decreases s.len(),
{
    lemma_position(s, sep);
    let p = position(s, sep);
    if p < s.len() {
        let first = seq![s.take(p)];
        let rest = split(s.skip(p + 1), sep);
        lemma_split_pieces(s.skip(p + 1), sep, c);
        assert forall|i: int| 0 <= i < split(s, sep).len() implies free_of(
            #[trigger] split(s, sep)[i],
            sep,
        ) by {
            if i > 0 {
                assert(split(s, sep)[i] == rest[i - 1]);
            }
        }
        if free_of(s, c) {
            assert forall|i: int| 0 <= i < split(s, sep).len() implies free_of(
                #[trigger] split(s, sep)[i],
                c,
            ) by {
                if i > 0 {
                    assert(split(s, sep)[i] == rest[i - 1]);
                }
            }
        }
    }
}

/// Splitting two texts joined by one separator yields the pieces of the
/// first followed by those of the second.
pub proof fn lemma_split_concat(a: Seq<char>, b: Seq<char>, sep: char)
    ensures
        split(a + seq![sep] + b, sep) == split(a, sep) + split(b, sep),
    decreases a.len(),
{
    let whole = a + seq![sep] + b;
    lemma_position(a, sep);
    let p = position(a, sep);
    if p < a.len() {
        assert forall|i: int| 0 <= i < p implies whole[i] != sep by {
            assert(whole[i] == a[i]);
        }
        assert(whole[p] == a[p]);
        lemma_position_is(whole, sep, p);
        assert(whole.take(p) =~= a.take(p));
        assert(whole.skip(p + 1) =~= a.skip(p + 1) + seq![sep] + b);
        lemma_split_concat(a.skip(p + 1), b, sep);
        assert(seq![a.take(p)] + (split(a.skip(p + 1), sep) + split(b, sep)) =~= seq![a.take(p)]
            + split(a.skip(p + 1), sep) + split(b, sep));
    } else {
        assert forall|i: int| 0 <= i < a.len() implies whole[i] != sep by {
            assert(whole[i] == a[i]);
        }
        assert(whole[a.len() as int] == sep);
        lemma_position_is(whole, sep, a.len() as int);
        assert(whole.take(a.len() as int) =~= a);
        assert(whole.skip(a.len() as int + 1) =~= b);
    }
}

/// Splitting what was joined yields the pieces again, where there is at
/// least one piece and none holds the separator.
pub proof fn lemma_split_join(pieces: Seq<Seq<char>>, sep: char)
    requires
        pieces.len() >= 1,
        all_free_of(pieces, sep),
    ensures
        split(join(pieces, sep), sep) == pieces,
    decreases pieces.len(),
{
    let last = pieces.last();
    assert(free_of(last, sep));
    lemma_position_is(last, sep, last.len() as int);
    if pieces.len() == 1 {
        assert(seq![last] =~= pieces);
    } else {
        let init = pieces.drop_last();
        assert forall|i: int| 0 <= i < init.len() implies free_of(#[trigger] init[i], sep) by {
            assert(init[i] == pieces[i]);
        }
        lemma_split_join(init, sep);
        lemma_split_concat(join(init, sep), last, sep);
        assert(init + seq![last] =~= pieces);
    }
}

/// The joined text holds no character that neither the pieces nor the
/// separator hold.
pub proof fn lemma_join_free_of(pieces: Seq<Seq<char>>, sep: char, c: char)
    requires
        all_free_of(pieces, c),
        sep != c,
    ensures
        free_of(join(pieces, sep), c),
    decreases pieces.len(),
{
    if pieces.len() == 1 {
        assert(free_of(pieces[0], c));
    } else if pieces.len() > 1 {
        let init = pieces.drop_last();
        assert forall|i: int| 0 <= i < init.len() implies free_of(#[trigger] init[i], c) by {
            assert(init[i] == pieces[i]);
        }
        lemma_join_free_of(init, sep, c);
        assert(free_of(pieces.last(), c));
    }
}

/// The kept parameters are not flagged, and hold no character that the
/// parameters did not hold.
pub proof fn lemma_kept<F: ParamFilter>(params: Seq<Seq<char>>, filter: &F, c: char)
    ensures
        none_flagged(kept(params, filter), filter),
        all_free_of(params, c) ==> all_free_of(kept(params, filter), c),
    decreases params.len(),
{
    if params.len() > 0 {
        let init = params.drop_last();
        lemma_kept(init, filter, c);
        if all_free_of(params, c) {
            assert forall|i: int| 0 <= i < init.len() implies free_of(#[trigger] init[i], c) by {
                assert(init[i] == params[i]);
            }
            assert(free_of(params.last(), c));
        }
    }
}

/// Where nothing is flagged, everything is kept.
pub proof fn lemma_kept_all<F: ParamFilter>(params: Seq<Seq<char>>, filter: &F)
    requires
        none_flagged(params, filter),
    ensures
        kept(params, filter) == params,
    decreases params.len(),
{
    if params.len() > 0 {
        let init = params.drop_last();
        assert forall|i: int| 0 <= i < init.len() implies !filter.flags(
            param_name(#[trigger] init[i]),
            param_value(init[i]),
        ) by {
            assert(init[i] == params[i]);
        }
        lemma_kept_all(init, filter);
        let p = params.last();
        assert(p == params[params.len() - 1]);
        assert(init.push(p) =~= params);
    }
}

/// The query parameters of a URL as they are written, in their order; none
/// where the URL has no query.
pub open spec fn parameters(url: Seq<char>) -> Seq<Seq<char>> {
    let head = url.take(position(url, '#'));
    let q = position(head, '?');
    if 0 <= q < head.len() {
        split(head.skip(q + 1), '&')
    } else {
        Seq::empty()
    }
}

/// Joining a piece and further pieces puts the piece, a separator and the
/// further pieces joined in a row.
pub proof fn lemma_join_front(first: Seq<char>, rest: Seq<Seq<char>>, sep: char)
    requires
        rest.len() >= 1,
    ensures
        join(seq![first] + rest, sep) == first + seq![sep] + join(rest, sep),
    decreases rest.len(),
{
    let pieces = seq![first] + rest;
    assert(pieces.len() == rest.len() + 1);
    assert(join(pieces, sep) == join(pieces.drop_last(), sep) + seq![sep] + pieces.last());
    assert(pieces.last() == rest.last());
    if rest.len() == 1 {
        assert(pieces.drop_last() =~= seq![first]);
        assert(join(seq![first], sep) == first);
        assert(join(rest, sep) == rest[0]);
    } else {
        assert(pieces.drop_last() =~= seq![first] + rest.drop_last());
        lemma_join_front(first, rest.drop_last(), sep);
        assert(join(rest, sep) == join(rest.drop_last(), sep) + seq![sep] + rest.last());
        assert(first + seq![sep] + join(rest.drop_last(), sep) + seq![sep] + rest.last() =~= first
            + seq![sep] + join(rest, sep));
    }
}

/// Joining what was split yields the text again.
pub proof fn lemma_join_split(s: Seq<char>, sep: char)
    ensures
        join(split(s, sep), sep) == s,
    decreases s.len(),
{
    lemma_position(s, sep);
    let p = position(s, sep);
    if p < s.len() {
        let rest = s.skip(p + 1);
        lemma_join_split(rest, sep);
        lemma_split_pieces(rest, sep, sep);
        lemma_join_front(s.take(p), split(rest, sep), sep);
        assert(s.take(p) + seq![sep] + rest =~= s);
    }
}

/// A URL in which the filter flags no parameter is left as it is.
pub proof fn lemma_sanitize_unflagged<F: ParamFilter>(url: Seq<char>, filter: &F)
    requires
        none_flagged(parameters(url), filter),
    ensures
        sanitized(url, filter) == url,
{
    lemma_position(url, '#');
    let h = position(url, '#');
    let head = url.take(h);
    lemma_position(head, '?');
    let q = position(head, '?');
    if q < head.len() {
        let query = head.skip(q + 1);
        let params = split(query, '&');
        lemma_kept_all(params, filter);
        lemma_split_pieces(query, '&', '&');
        lemma_join_split(query, '&');
        assert(head.take(q) + seq!['?'] + query + url.skip(h) =~= url);
    }
}

/// Sanitizing is idempotent: a sanitized URL is left as it is.
pub proof fn lemma_sanitize_idempotent<F: ParamFilter>(url: Seq<char>, filter: &F)
    ensures
        sanitized(sanitized(url, filter), filter) == sanitized(url, filter),
{
    lemma_position(url, '#');
    let h = position(url, '#');
    let head = url.take(h);
    let fragment = url.skip(h);
    lemma_position(head, '?');
    let q = position(head, '?');
    if q < head.len() {
        let base = head.take(q);
        let query = head.skip(q + 1);
        let params = kept(split(query, '&'), filter);
        let once = sanitized(url, filter);
        assert(free_of(query, '#'));
        lemma_split_pieces(query, '&', '#');
        lemma_kept(split(query, '&'), filter, '#');
        lemma_kept(split(query, '&'), filter, '&');
        if params.len() == 0 {
            assert(once == base + fragment);
            lemma_position_is(once, '#', base.len() as int);
            assert(once.take(base.len() as int) =~= base);
            lemma_position_is(base, '?', base.len() as int);
        } else {
            let joined = join(params, '&');
            let head2 = base + seq!['?'] + joined;
            assert(once == head2 + fragment);
            lemma_join_free_of(params, '&', '#');
            lemma_position_is(once, '#', head2.len() as int);
            assert(once.take(head2.len() as int) =~= head2);
            assert(once.skip(head2.len() as int) =~= fragment);
            lemma_position_is(head2, '?', base.len() as int);
            assert(head2.take(base.len() as int) =~= base);
            assert(head2.skip(base.len() as int + 1) =~= joined);
            lemma_split_join(params, '&');
            lemma_kept_all(params, filter);
        }
    }
}

fn position_in(v: &Vec<char>, from: usize, to: usize, c: char) -> (r: usize)
    requires
        from <= to <= v.len(),
    ensures
        from <= r <= to,
        r - from == position(v@.subrange(from as int, to as int), c),
{
    let mut i: usize = from;
    while i < to && v[i] != c
        invariant
            from <= i <= to <= v.len(),
            forall|k: int| from <= k < i ==> v@[k] != c,
        decreases to - i,
    {
        i += 1;
    }
    proof {
        let s = v@.subrange(from as int, to as int);
        lemma_position_is(s, c, i - from);
    }
    i
}

fn split_range(v: &Vec<char>, from: usize, to: usize, sep: char) -> (pieces: Vec<Vec<char>>)
    requires
        from <= to <= v.len(),
    ensures
        views(pieces@) == split(v@.subrange(from as int, to as int), sep),
{
    let mut pieces: Vec<Vec<char>> = Vec::new();
    let mut start: usize = from;
    let ghost whole = v@.subrange(from as int, to as int);
    assert(views(pieces@) =~= Seq::<Seq<char>>::empty());
    assert(whole.skip(0) =~= whole);
    loop
        invariant
            from <= start <= to <= v.len(),
            whole == v@.subrange(from as int, to as int),
            split(whole, sep) == views(pieces@) + split(whole.skip(start - from), sep),
        decreases to - start,
    {
        let stop = position_in(v, start, to, sep);
        let mut piece: Vec<char> = Vec::new();
        let mut i: usize = start;
        while i < stop
            invariant
                start <= i <= stop <= v.len(),
                piece@ == v@.subrange(start as int, i as int),
            decreases stop - i,
        {
            piece.push(v[i]);
            i += 1;
        }
        let ghost rest = whole.skip(start - from);
        let ghost before = views(pieces@);
        proof {
            assert(rest =~= v@.subrange(start as int, to as int));
            assert(rest.take(stop - start) =~= piece@);
        }
        pieces.push(piece);
        proof {
            assert(views(pieces@) =~= before + seq![rest.take(stop - start)]);
        }
        if stop == to {
            proof {
                assert(rest.take(stop - start) =~= rest);
                assert(split(rest, sep) == seq![rest]);
            }
            return pieces;
        }
        proof {
            assert(rest.skip(stop - start + 1) =~= whole.skip(stop + 1 - from));
            assert(split(rest, sep) == seq![rest.take(stop - start)] + split(
                rest.skip(stop - start + 1),
                sep,
            ));
            assert(before + (seq![rest.take(stop - start)] + split(
                rest.skip(stop - start + 1),
                sep,
            )) =~= before + seq![rest.take(stop - start)] + split(rest.skip(stop - start + 1), sep));
        }
        start = stop + 1;
    }
}

fn flagged<F: ParamFilter>(param: &Vec<char>, filter: &F) -> (b: bool)
    ensures
        b == filter.flags(param_name(param@), param_value(param@)),
{
    let e = position_in(param, 0, param.len(), '=');
    assert(param@.subrange(0, param.len() as int) =~= param@);
    let name = from_range(param, 0, e);
    let value = if e < param.len() {
        from_range(param, e + 1, param.len())
    } else {
        String::new()
    };
    assert(name@ =~= param_name(param@));
    assert(value@ =~= param_value(param@));
    filter.test(name.as_str(), value.as_str())
}

/// The URL without the query parameters that the filter flags.
pub fn sanitize_url<F: ParamFilter>(url: &str, filter: &F) -> (r: String)
    ensures
        r@ == sanitized(url@, filter),
{
    let chars = to_chars(url);
    let h = position_in(&chars, 0, chars.len(), '#');
    let q = position_in(&chars, 0, h, '?');
    let ghost head = chars@.take(h as int);
    proof {
        assert(chars@.subrange(0, chars.len() as int) =~= chars@);
        assert(chars@.subrange(0, h as int) =~= head);
    }
    if q >= h {
        return from_chars(&chars);
    }
    let params = split_range(&chars, q + 1, h, '&');
    proof {
        assert(chars@.subrange(q + 1, h as int) =~= head.skip(q + 1));
    }
    let ghost all = views(params@);
    let mut out = from_range(&chars, 0, q);
    let ghost base = out@;
    let mut found: bool = false;
    let mut i: usize = 0;
    while i < params.len()
        invariant
            i <= params.len(),
            all == views(params@),
            found == (kept(all.take(i as int), filter).len() > 0),
            out@ == if found {
                base + seq!['?'] + join(kept(all.take(i as int), filter), '&')
            } else {
                base
            },
        decreases params.len() - i,
    {
        let ghost before = kept(all.take(i as int), filter);
        proof {
            assert(all.take(i + 1).drop_last() =~= all.take(i as int));
            assert(all.take(i + 1).last() == params@[i as int]@);
        }
        if !flagged(&params[i], filter) {
            let ghost so_far = out@;
            if found {
                out.push('&');
            } else {
                out.push('?');
            }
            push_range(&mut out, &params[i], 0, params[i].len());
            proof {
                let p = params@[i as int]@;
                let after = kept(all.take(i + 1), filter);
                assert(after == before.push(p));
                assert(after.drop_last() =~= before);
                assert(params@[i as int]@.subrange(0, p.len() as int) =~= p);
                if found {
                    assert(out@ =~= base + seq!['?'] + join(after, '&'));
                } else {
                    assert(out@ =~= base + seq!['?'] + join(after, '&'));
                }
            }
            found = true;
        }
        i += 1;
    }
    proof {
        assert(all.take(params.len() as int) =~= all);
        assert(base =~= head.take(q as int));
    }
    push_range(&mut out, &chars, h, chars.len());
    proof {
        assert(chars@.subrange(h as int, chars.len() as int) =~= chars@.skip(h as int));
    }
    out
}

} // verus!
