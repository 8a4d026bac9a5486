//! Scanning texts for separators.
//!
//! The formats on the wire are cut at separators: a request at line
//! ends, a query at `&`, a parameter at `=`.  The functions here find
//! the first separator and cut there.

use crate::text::push_char;
use vstd::prelude::*;

verus! {

/// The position of the first `c` in `s`, or the length of `s` if there
/// is none.
pub open spec fn find(s: Seq<char>, c: char) -> int
    decreases s.len(),
{
    if s.len() == 0 || s[0] == c {
        0
    } else {
        1 + find(s.drop_first(), c)
    }
}

/// The position of the first `a` in `s` that is followed by `b`, or the
/// length of `s` if there is none.
pub open spec fn find2(s: Seq<char>, a: char, b: char) -> int
    decreases s.len(),
{
    if s.len() == 0 {
        0
    } else if s.len() >= 2 && s[0] == a && s[1] == b {
        0
    } else {
        1 + find2(s.drop_first(), a, b)
    }
}

/// `find` stays within the text, finds `c`, and nothing before it is `c`.
pub proof fn find_is_first(s: Seq<char>, c: char)
    ensures
        0 <= find(s, c) <= s.len(),
        find(s, c) < s.len() ==> s[find(s, c)] == c,
        forall|i: int| 0 <= i < find(s, c) ==> s[i] != c,
    decreases s.len(),
{
    if s.len() > 0 && s[0] != c {
        find_is_first(s.drop_first(), c);
        assert forall|i: int| 0 <= i < find(s, c) implies s[i] != c by {
            if i > 0 {
                assert(s.drop_first()[i - 1] == s[i]);
            }
        }
    }
}

/// `find2` stays within the text and finds `a` followed by `b`.
pub proof fn find2_is_first(s: Seq<char>, a: char, b: char)
    ensures
        0 <= find2(s, a, b) <= s.len(),
        find2(s, a, b) < s.len() ==> find2(s, a, b) + 1 < s.len() && s[find2(s, a, b)] == a && s[find2(
            s,
            a,
            b,
        ) + 1] == b,
    decreases s.len(),
{
    if s.len() > 0 && !(s.len() >= 2 && s[0] == a && s[1] == b) {
        find2_is_first(s.drop_first(), a, b);
    }
}

/// The position of the first `c` in `s` at or after `from`, or the
/// length of `s` if there is none.
pub fn find_from(s: &Vec<char>, c: char, from: usize) -> (at: usize)
    requires
        from <= s.len(),
    ensures
        from <= at <= s.len(),
        at == from + find(s@.skip(from as int), c),
{
    let mut at: usize = from;
    while at < s.len() && s[at] != c
        invariant
            from <= at <= s.len(),
            from + find(s@.skip(from as int), c) == at + find(s@.skip(at as int), c),
        decreases s.len() - at,
    {
        assert(s@.skip(at as int)[0] == s@[at as int]);
        assert(s@.skip(at as int).drop_first() == s@.skip(at + 1));
        at = at + 1;
    }
    proof {
        if at < s.len() {
            assert(s@.skip(at as int)[0] == s@[at as int]);
        }
    }
    at
}

/// The position of the first `a` followed by `b` in `s` at or after
/// `from`, or the length of `s` if there is none.
pub fn find2_from(s: &Vec<char>, a: char, b: char, from: usize) -> (at: usize)
    requires
        from <= s.len(),
    ensures
        from <= at <= s.len(),
        at == from + find2(s@.skip(from as int), a, b),
{
    let mut at: usize = from;
    while at < s.len() && !(at + 1 < s.len() && s[at] == a && s[at + 1] == b)
        invariant
            from <= at <= s.len(),
            from + find2(s@.skip(from as int), a, b) == at + find2(s@.skip(at as int), a, b),
        decreases s.len() - at,
    {
        assert(s@.skip(at as int)[0] == s@[at as int]);
        if at + 1 < s.len() {
            assert(s@.skip(at as int)[1] == s@[at + 1]);
        }
        assert(s@.skip(at as int).drop_first() == s@.skip(at + 1));
        at = at + 1;
    }
    proof {
        if at < s.len() {
            assert(s@.skip(at as int)[0] == s@[at as int]);
            assert(s@.skip(at as int)[1] == s@[at + 1]);
        }
    }
    at
}

/// The part of `s` from `from` up to, not including, `to`.
pub fn piece(s: &Vec<char>, from: usize, to: usize) -> (part: Vec<char>)
    requires
        from <= to <= s.len(),
    ensures
        part@ == s@.subrange(from as int, to as int),
{
    let mut part: Vec<char> = Vec::new();
    let mut i: usize = from;
    while i < to
        invariant
            from <= i <= to <= s.len(),
            part@ == s@.subrange(from as int, i as int),
        decreases to - i,
    {
        part.push(s[i]);
        assert(s@.subrange(from as int, i + 1) == s@.subrange(from as int, i as int).push(
            s@[i as int],
        ));
        i = i + 1;
    }
    part
}

/// The text of the part of `s` from `from` up to, not including, `to`.
pub fn piece_text(s: &Vec<char>, from: usize, to: usize) -> (part: String)
    requires
        from <= to <= s.len(),
    ensures
        part@ == s@.subrange(from as int, to as int),
{
    let mut part = String::new();
    let mut i: usize = from;
    while i < to
        invariant
            from <= i <= to <= s.len(),
            part@ == s@.subrange(from as int, i as int),
        decreases to - i,
    {
        push_char(&mut part, s[i]);
        assert(s@.subrange(from as int, i + 1) == s@.subrange(from as int, i as int).push(
            s@[i as int],
        ));
        i = i + 1;
    }
    part
}

/// A name and a value.
#[derive(Debug, PartialEq, Eq)]
pub struct Pair {
    pub name: String,
    pub value: String,
}

/// The texts of a pair.
pub open spec fn pair_texts(pair: Pair) -> (Seq<char>, Seq<char>) {
    (pair.name@, pair.value@)
}

/// The texts of a list of pairs.
pub open spec fn pairs_texts(pairs: Seq<Pair>) -> Seq<(Seq<char>, Seq<char>)> {
    pairs.map_values(|p: Pair| pair_texts(p))
}

/// A parameter cut at its first `=` into name and value, or nothing if
/// it has no `=`.
pub open spec fn param_of(s: Seq<char>) -> Option<(Seq<char>, Seq<char>)> {
    if find(s, '=') < s.len() {
        Some((s.take(find(s, '=')), s.skip(find(s, '=') + 1)))
    } else {
        None
    }
}

/// The parameters of a query or a form: the text is cut at every `&`,
/// and every piece with a `=` gives a name and a value.
pub open spec fn params_of(s: Seq<char>) -> Seq<(Seq<char>, Seq<char>)>
    decreases s.len(),
{
    let k = find(s, '&');
    let rest = if 0 <= k < s.len() {
        params_of(s.skip(k + 1))
    } else {
        Seq::empty()
    };
    match param_of(s.take(k)) {
        Some(p) => seq![p] + rest,
        None => rest,
    }
}

/// The parameters of a query or a form, in their order.
pub fn parse_params(s: &Vec<char>) -> (params: Vec<Pair>)
    ensures
        pairs_texts(params@) == params_of(s@),
{
    let mut params: Vec<Pair> = Vec::new();
    let mut from: usize = 0;
    let mut done = false;
    assert(s@.skip(0) == s@);
    assert(pairs_texts(params@) == Seq::<(Seq<char>, Seq<char>)>::empty());
    while !done
        invariant
            from <= s.len(),
            !done ==> params_of(s@) == pairs_texts(params@) + params_of(s@.skip(from as int)),
            done ==> params_of(s@) == pairs_texts(params@),
        decreases s.len() - from + if done { 0int } else { 1int },
    {
        let ghost rest = s@.skip(from as int);
        let ghost before = params@;
        let end = find_from(s, '&', from);
        let eq = find_from(s, '=', from);
        proof {
            find_is_first(rest, '&');
            find_is_first(rest, '=');
            let k = find(rest, '&');
            assert(rest.take(k) == s@.subrange(from as int, end as int));
            // The first `=` of the piece is the first `=` of the rest,
            // if that comes before the `&`.
            find_is_first(rest.take(k), '=');
            let e = find(rest, '=');
            let p = find(rest.take(k), '=');
            if e < k {
                assert(rest.take(k)[e] == rest[e]);
                assert(p <= e) by {
                    if p > e {
                        assert(rest.take(k)[e] != '=');
                    }
                }
                assert(p == e) by {
                    if p < e {
                        assert(rest.take(k)[p] == rest[p]);
                    }
                }
            } else {
                assert(p == k) by {
                    if p < k {
                        assert(rest.take(k)[p] == rest[p]);
                    }
                }
            }
        }
        if eq < end {
            let name = piece_text(s, from, eq);
            let value = piece_text(s, eq + 1, end);
            params.push(Pair { name, value });
            proof {
                let k = find(rest, '&');
                let e = find(rest.take(k), '=');
                assert(rest.take(k).take(e) == s@.subrange(from as int, eq as int));
                assert(rest.take(k).skip(e + 1) == s@.subrange(eq + 1, end as int));
                assert(pairs_texts(params@) == pairs_texts(before).push(
                    (rest.take(k).take(e), rest.take(k).skip(e + 1)),
                ));
            }
        }
        proof {
            let k = find(rest, '&');
            if end < s.len() {
                assert(rest.skip(k + 1) == s@.skip(end + 1));
            }
            let tail = if 0 <= k < rest.len() {
                params_of(rest.skip(k + 1))
            } else {
                Seq::empty()
            };
            if eq < end {
                let p = param_of(rest.take(k))->Some_0;
                assert(pairs_texts(before) + (seq![p] + tail) == pairs_texts(before).push(p)
                    + tail);
            }
            assert(params_of(s@) == pairs_texts(params@) + tail);
        }
        if end < s.len() {
            from = end + 1;
        } else {
            done = true;
            proof {
                assert(pairs_texts(params@) + Seq::<(Seq<char>, Seq<char>)>::empty()
                    == pairs_texts(params@));
            }
        }
    }
    params
}

/// The value of the last of `pairs` with the name `name`.
pub open spec fn lookup(pairs: Seq<(Seq<char>, Seq<char>)>, name: Seq<char>) -> Option<Seq<char>>
    decreases pairs.len(),
{
    if pairs.len() == 0 {
        None
    } else if pairs.last().0 == name {
        Some(pairs.last().1)
    } else {
        lookup(pairs.drop_last(), name)
    }
}

/// The value of the last of `pairs` with the name `name`: where a name
/// comes twice, the later value counts.
pub fn get<'a>(pairs: &'a Vec<Pair>, name: &str) -> (value: Option<&'a String>)
    ensures
        value is Some == lookup(pairs_texts(pairs@), name@) is Some,
        value is Some ==> value->Some_0@ == lookup(pairs_texts(pairs@), name@)->Some_0,
{
    let mut i: usize = pairs.len();
    assert(pairs_texts(pairs@).take(i as int) == pairs_texts(pairs@));
    while i > 0
        invariant
            i <= pairs.len(),
            lookup(pairs_texts(pairs@), name@) == lookup(pairs_texts(pairs@).take(i as int), name@),
        decreases i,
    {
        i = i - 1;
        proof {
            let t = pairs_texts(pairs@);
            assert(t.take(i + 1).last() == t[i as int]);
            assert(t.take(i + 1).drop_last() == t.take(i as int));
        }
        if crate::text::text_eq(pairs[i].name.as_str(), name) {
            return Some(&pairs[i].value);
        }
    }
    None
}

} // verus!
