//! Text as a sequence of characters: conversion, search, stripping and splitting.
//!
//! Every contract in this crate that speaks of a string speaks of its
//! characters, `s@`. The functions here take a `&str` apart into a
//! `Vec<char>`, work on slices of it, and put a `String` together again.

use vstd::prelude::*;
use vstd::std_specs::iter::IteratorSpec;

verus! {

broadcast use vstd::string::group_string_axioms;

/// `String::push`, which std documents as appending the given character to
/// the end of the string: the characters afterwards are the old ones followed
/// by `c`.
pub assume_specification[ String::push ](s: &mut String, c: char)
    ensures
        final(s)@ == old(s)@.push(c),
;

/// The characters of `s`, in order.
pub fn chars_of(s: &str) -> (v: Vec<char>)
    ensures
        v@ == s@,
{
    let mut v: Vec<char> = Vec::new();
    let mut it = s.chars();
    loop
        invariant
            it.obeys_prophetic_iter_laws(),
            it.decrease() is Some,
            v@ + it.remaining() == s@,
        ensures
            v@ == s@,
        decreases it.decrease()->0,
    {
        match it.next() {
            Some(c) => {
                v.push(c);
            },
            None => {
                break ;
            },
        }
    }
    v
}

/// The string made of the characters of `v`, in order.
pub fn string_of(v: &[char]) -> (s: String)
    ensures
        s@ == v@,
{
    let mut s: String = String::new();
    let mut i: usize = 0;
    while i < v.len()
        invariant
            i <= v.len(),
            s@ == v@.take(i as int),
        decreases v.len() - i,
    {
        s.push(v[i]);
        i += 1;
        assert(v@.take(i as int) == v@.take(i - 1).push(v@[i - 1]));
    }
    assert(v@.take(v.len() as int) == v@);
    s
}

/// Appends the characters of `tail` to `v`.
pub fn extend_chars(v: &mut Vec<char>, tail: &[char])
    ensures
        final(v)@ == old(v)@ + tail@,
{
    let mut i: usize = 0;
    while i < tail.len()
        invariant
            i <= tail.len(),
            v@ == old(v)@ + tail@.take(i as int),
        decreases tail.len() - i,
    {
        v.push(tail[i]);
        i += 1;
        assert(tail@.take(i as int) == tail@.take(i - 1).push(tail@[i - 1]));
    }
    assert(tail@.take(tail.len() as int) == tail@);
}

/// Appends the characters of `tail` to `v`.
pub fn push_str(v: &mut Vec<char>, tail: &str)
    ensures
        final(v)@ == old(v)@ + tail@,
{
    let chars: Vec<char> = chars_of(tail);
    extend_chars(v, chars.as_slice());
}

/// Whether two texts hold the same characters.
pub fn same_text(a: &str, b: &str) -> (r: bool)
    ensures
        r == (a@ == b@),
{
    let x: Vec<char> = chars_of(a);
    let y: Vec<char> = chars_of(b);
    same_chars(x.as_slice(), y.as_slice())
}

/// Whether two slices hold the same characters.
pub fn same_chars(a: &[char], b: &[char]) -> (r: bool)
    ensures
        r == (a@ == b@),
{
    if a.len() != b.len() {
        return false;
    }
    let mut i: usize = 0;
    while i < a.len()
        invariant
            a.len() == b.len(),
            i <= a.len(),
            forall|k: int| 0 <= k < i ==> a@[k] == b@[k],
        decreases a.len() - i,
    {
        if a[i] != b[i] {
            return false;
        }
        i += 1;
    }
    assert(a@ =~= b@);
    true
}

/// `p` stands in `s` at index `i`.
pub open spec fn matches_at(s: Seq<char>, p: Seq<char>, i: int) -> bool {
    0 <= i && i + p.len() <= s.len() && s.subrange(i, i + p.len()) == p
}

/// `p` stands in `s` at index `i` and at no index before it.
pub open spec fn is_first_match(s: Seq<char>, p: Seq<char>, i: int) -> bool {
    matches_at(s, p, i) && forall|j: int| 0 <= j < i ==> !matches_at(s, p, j)
}

/// `p` stands somewhere in `s`.
pub open spec fn occurs(s: Seq<char>, p: Seq<char>) -> bool {
    exists|i: int| matches_at(s, p, i)
}

/// The least index at which `p` stands in `s`, if there is one.
pub open spec fn first_match(s: Seq<char>, p: Seq<char>) -> Option<int> {
    if occurs(s, p) {
        Some(choose|i: int| is_first_match(s, p, i))
    } else {
        None
    }
}

/// A first match is the first match: `first_match` has no other choice.
pub proof fn lemma_first_match_is(s: Seq<char>, p: Seq<char>, i: int)
    requires
        is_first_match(s, p, i),
    ensures
        first_match(s, p) == Some(i),
{
    assert(matches_at(s, p, i));
    let c = choose|k: int| is_first_match(s, p, k);
    assert(is_first_match(s, p, c));
    if c < i {
        assert(!matches_at(s, p, c));
    }
    if i < c {
        assert(!matches_at(s, p, i));
    }
}

/// What `first_match` returns is a first match, and it returns one whenever
/// `p` stands in `s`.
pub proof fn lemma_first_match_least(s: Seq<char>, p: Seq<char>)
    ensures
        match first_match(s, p) {
            Some(i) => is_first_match(s, p, i),
            None => forall|j: int| !matches_at(s, p, j),
        },
{
    if occurs(s, p) {
        let w = choose|i: int| matches_at(s, p, i);
        lemma_least_match_exists(s, p, w);
    }
}

proof fn lemma_least_match_exists(s: Seq<char>, p: Seq<char>, w: int)
    requires
        matches_at(s, p, w),
    ensures
        exists|i: int| is_first_match(s, p, i),
    decreases w,
{
    if exists|j: int| 0 <= j < w && matches_at(s, p, j) {
        let j = choose|j: int| 0 <= j < w && matches_at(s, p, j);
        lemma_least_match_exists(s, p, j);
    } else {
        assert(is_first_match(s, p, w));
    }
}

/// Whether `p` stands in `s` at index `i`.
pub fn starts_with_at(s: &[char], p: &[char], i: usize) -> (r: bool)
    ensures
        r == matches_at(s@, p@, i as int),
{
    if i > s.len() || p.len() > s.len() - i {
        return false;
    }
    let mut k: usize = 0;
    while k < p.len()
        invariant
            i + p.len() <= s.len(),
            k <= p.len(),
            forall|j: int| 0 <= j < k ==> s@[i + j] == p@[j],
        decreases p.len() - k,
    {
        if s[i + k] != p[k] {
            assert(s@.subrange(i as int, i + p.len())[k as int] != p@[k as int]);
            return false;
        }
        k += 1;
    }
    assert(s@.subrange(i as int, i + p.len()) =~= p@);
    true
}

/// Whether `s` begins with `p`.
pub fn starts_with(s: &[char], p: &[char]) -> (r: bool)
    ensures
        r == matches_at(s@, p@, 0),
{
    starts_with_at(s, p, 0)
}

/// The least index at which `p` stands in `s`.
pub fn find(s: &[char], p: &[char]) -> (r: Option<usize>)
    ensures
        match r {
            Some(i) => first_match(s@, p@) == Some(i as int) && i + p@.len() <= s@.len(),
            None => first_match(s@, p@) is None,
        },
{
    if p.len() > s.len() {
        return None;
    }
    let last: usize = s.len() - p.len();
    let mut i: usize = 0;
    loop
        invariant
            last == s.len() - p.len(),
            i <= last,
            forall|j: int| 0 <= j < i ==> !matches_at(s@, p@, j),
        decreases last - i,
    {
        if starts_with_at(s, p, i) {
            proof {
                lemma_first_match_is(s@, p@, i as int);
            }
            return Some(i);
        }
        if i == last {
            return None;
        }
        i += 1;
    }
}

/// Whether `p` stands somewhere in `s`.
pub fn contains(s: &[char], p: &[char]) -> (r: bool)
    ensures
        r == occurs(s@, p@),
{
    find(s, p).is_some()
}

/// Rust's `char::is_whitespace`: the code points with the Unicode property
/// `White_Space`.
pub open spec fn is_whitespace(c: char) -> bool {
    let u = c as u32;
    ||| 0x09 <= u <= 0x0D
    ||| u == 0x20
    ||| u == 0x85
    ||| u == 0xA0
    ||| u == 0x1680
    ||| 0x2000 <= u <= 0x200A
    ||| u == 0x2028
    ||| u == 0x2029
    ||| u == 0x202F
    ||| u == 0x205F
    ||| u == 0x3000
}

/// Which characters a call strips from the ends of a text.
#[derive(Clone, Copy, Debug, PartialEq, Eq, Structural)]
pub enum Strip {
    /// Whitespace.
    Whitespace,
    /// One given character.
    Char(char),
}

impl Strip {
    /// Whether `c` is one of the characters to strip.
    pub open spec fn strips(self, c: char) -> bool {
        match self {
            Strip::Whitespace => is_whitespace(c),
            Strip::Char(q) => c == q,
        }
    }

    /// Whether `c` is one of the characters to strip.
    pub fn test(&self, c: char) -> (r: bool)
        ensures
            r == self.strips(c),
    {
        match self {
            Strip::Whitespace => {
                let u: u32 = c as u32;
                (0x09 <= u && u <= 0x0D) || u == 0x20 || u == 0x85 || u == 0xA0 || u == 0x1680 || (
                0x2000 <= u && u <= 0x200A) || u == 0x2028 || u == 0x2029 || u == 0x202F || u
                    == 0x205F || u == 0x3000
            },
            Strip::Char(q) => c == *q,
        }
    }
}

/// `s` without its longest prefix of stripped characters.
pub open spec fn strip_start(s: Seq<char>, what: Strip) -> Seq<char>
    decreases s.len(),
{
    if s.len() > 0 && what.strips(s[0]) {
        strip_start(s.skip(1), what)
    } else {
        s
    }
}

/// `s` without its longest suffix of stripped characters.
pub open spec fn strip_end(s: Seq<char>, what: Strip) -> Seq<char>
    decreases s.len(),
{
    if s.len() > 0 && what.strips(s.last()) {
        strip_end(s.drop_last(), what)
    } else {
        s
    }
}

/// `s` with the stripped characters taken from both ends.
pub open spec fn strip(s: Seq<char>, what: Strip) -> Seq<char> {
    strip_end(strip_start(s, what), what)
}

/// `s` without the whitespace at its ends, as `str::trim` gives it.
pub open spec fn trim(s: Seq<char>) -> Seq<char> {
    strip(s, Strip::Whitespace)
}

/// `s` without the characters `q` at its ends, as `str::trim_matches` gives it.
pub open spec fn trim_matches(s: Seq<char>, q: char) -> Seq<char> {
    strip(s, Strip::Char(q))
}

/// A stripped text neither begins nor ends with a stripped character, and the
/// text it came from is the stripped text between two runs of stripped
/// characters.
pub proof fn lemma_strip_shape(s: Seq<char>, what: Strip)
    ensures
        strip(s, what).len() > 0 ==> !what.strips(strip(s, what).first()) && !what.strips(
            strip(s, what).last(),
        ),
        exists|a: int, b: int|
            0 <= a <= b <= s.len() && #[trigger] s.subrange(a, b) == strip(s, what) && (forall|
                k: int,
            |
                0 <= k < a || b <= k < s.len() ==> what.strips(s[k])),
{
    lemma_strip_start_shape(s, what);
    let a = s.len() - strip_start(s, what).len();
    let t = strip_start(s, what);
    lemma_strip_end_shape(t, what);
    let b = a + strip_end(t, what).len();
    assert(s.subrange(a, b) =~= t.take(strip_end(t, what).len() as int));
    assert forall|k: int| 0 <= k < a || b <= k < s.len() implies what.strips(s[k]) by {
        if b <= k {
            assert(s[k] == t[k - a]);
        }
    }
    if strip(s, what).len() > 0 {
        assert(strip(s, what).first() == t[0]);
    }
}

proof fn lemma_strip_start_shape(s: Seq<char>, what: Strip)
    ensures
        strip_start(s, what).len() <= s.len(),
        strip_start(s, what) == s.skip(s.len() - strip_start(s, what).len()),
        forall|k: int| 0 <= k < s.len() - strip_start(s, what).len() ==> what.strips(s[k]),
        strip_start(s, what).len() > 0 ==> !what.strips(strip_start(s, what)[0]),
    decreases s.len(),
{
    if s.len() > 0 && what.strips(s[0]) {
        let r = s.skip(1);
        lemma_strip_start_shape(r, what);
        let n = r.len() - strip_start(r, what).len();
        assert(r.skip(n) =~= s.skip(n + 1));
        assert forall|k: int| 0 <= k < s.len() - strip_start(s, what).len() implies what.strips(
            s[k],
        ) by {
            if k > 0 {
                assert(s[k] == r[k - 1]);
            }
        }
    } else {
        assert(s.skip(0) =~= s);
    }
}

proof fn lemma_strip_end_shape(s: Seq<char>, what: Strip)
    ensures
        strip_end(s, what).len() <= s.len(),
        strip_end(s, what) == s.take(strip_end(s, what).len() as int),
        forall|k: int| strip_end(s, what).len() <= k < s.len() ==> what.strips(s[k]),
        strip_end(s, what).len() > 0 ==> !what.strips(strip_end(s, what).last()),
    decreases s.len(),
{
    if s.len() > 0 && what.strips(s.last()) {
        let r = s.drop_last();
        lemma_strip_end_shape(r, what);
        let n = strip_end(r, what).len() as int;
        assert(r.take(n) =~= s.take(n));
        assert forall|k: int| strip_end(s, what).len() <= k < s.len() implies what.strips(
            s[k],
        ) by {
            if k < s.len() - 1 {
                assert(s[k] == r[k]);
            }
        }
    } else {
        assert(s.take(s.len() as int) =~= s);
    }
}

/// The part of `s` that is left when the characters of `what` are stripped
/// from both ends.
pub fn strip_chars<'a>(s: &'a [char], what: Strip) -> (r: &'a [char])
    ensures
        r@ == strip(s@, what),
{
    let mut lo: usize = 0;
    assert(s@.skip(0) =~= s@);
    while lo < s.len() && what.test(s[lo])
        invariant
            lo <= s.len(),
            strip_start(s@, what) == strip_start(s@.skip(lo as int), what),
        decreases s.len() - lo,
    {
        assert(s@.skip(lo as int).skip(1) =~= s@.skip(lo + 1));
        lo += 1;
    }
    assert(strip_start(s@, what) == s@.skip(lo as int));
    let mut hi: usize = s.len();
    assert(s@.skip(lo as int) =~= s@.subrange(lo as int, hi as int));
    while hi > lo && what.test(s[hi - 1])
        invariant
            lo <= hi <= s.len(),
            strip(s@, what) == strip_end(s@.subrange(lo as int, hi as int), what),
        decreases hi - lo,
    {
        assert(s@.subrange(lo as int, hi as int).drop_last() =~= s@.subrange(
            lo as int,
            hi - 1,
        ));
        hi -= 1;
    }
    &s[lo..hi]
}

/// The number of characters of `s` that stand before its first `c`: the
/// length of `s` where it holds no `c`.
pub open spec fn position(s: Seq<char>, c: char) -> int
    decreases s.len(),
{
    if s.len() == 0 || s[0] == c {
        0
    } else {
        1 + position(s.skip(1), c)
    }
}

/// `position` is the index of the first `c`, or the length where there is none.
pub proof fn lemma_position(s: Seq<char>, c: char)
    ensures
        0 <= position(s, c) <= s.len(),
        forall|k: int| 0 <= k < position(s, c) ==> s[k] != c,
        position(s, c) < s.len() ==> s[position(s, c)] == c,
    decreases s.len(),
{
    if s.len() == 0 || s[0] == c {
    } else {
        let r = s.skip(1);
        lemma_position(r, c);
        assert forall|k: int| 0 <= k < position(s, c) implies s[k] != c by {
            if k > 0 {
                assert(s[k] == r[k - 1]);
            }
        }
    }
}

/// The index of the first `c` in `s`.
pub fn find_char(s: &[char], c: char) -> (r: Option<usize>)
    ensures
        match r {
            Some(i) => i == position(s@, c) && i < s@.len(),
            None => position(s@, c) == s@.len(),
        },
{
    let mut i: usize = 0;
    assert(s@.skip(0) =~= s@);
    while i < s.len()
        invariant
            i <= s.len(),
            position(s@, c) == i + position(s@.skip(i as int), c),
        decreases s.len() - i,
    {
        if s[i] == c {
            return Some(i);
        }
        assert(s@.skip(i as int).skip(1) =~= s@.skip(i + 1));
        i += 1;
    }
    None
}

/// The index of the last `c` in `s`, if `s` holds one.
pub open spec fn last_position(s: Seq<char>, c: char) -> Option<int>
    decreases s.len(),
{
    if s.len() == 0 {
        None
    } else if s.last() == c {
        Some(s.len() - 1)
    } else {
        last_position(s.drop_last(), c)
    }
}

/// `last_position` is the index of a `c` with no `c` after it, and `None`
/// exactly where `s` holds no `c`.
pub proof fn lemma_last_position(s: Seq<char>, c: char)
    ensures
        match last_position(s, c) {
            Some(i) => 0 <= i < s.len() && s[i] == c && forall|k: int|
                i < k < s.len() ==> s[k] != c,
            None => forall|k: int| 0 <= k < s.len() ==> s[k] != c,
        },
    decreases s.len(),
{
    if s.len() > 0 && s.last() != c {
        let r = s.drop_last();
        lemma_last_position(r, c);
        match last_position(r, c) {
            Some(i) => {
                assert forall|k: int| i < k < s.len() implies s[k] != c by {
                    if k < s.len() - 1 {
                        assert(s[k] == r[k]);
                    }
                }
            },
            None => {
                assert forall|k: int| 0 <= k < s.len() implies s[k] != c by {
                    if k < s.len() - 1 {
                        assert(s[k] == r[k]);
                    }
                }
            },
        }
    }
}

/// The index of the last `c` in `s`.
pub fn rfind_char(s: &[char], c: char) -> (r: Option<usize>)
    ensures
        match r {
            Some(i) => last_position(s@, c) == Some(i as int) && i < s@.len(),
            None => last_position(s@, c) is None,
        },
{
    let mut i: usize = s.len();
    assert(s@.take(i as int) =~= s@);
    while i > 0
        invariant
            i <= s.len(),
            last_position(s@, c) == last_position(s@.take(i as int), c),
        decreases i,
    {
        if s[i - 1] == c {
            return Some(i - 1);
        }
        assert(s@.take(i as int).drop_last() =~= s@.take(i - 1));
        i -= 1;
    }
    None
}

/// The pieces of `s` that stand between its separators `sep`: one more piece
/// than `s` holds separators.
pub open spec fn split_on(s: Seq<char>, sep: char) -> Seq<Seq<char>>
    decreases s.len(),
{
    let i = position(s, sep);
    if 0 <= i < s.len() {
        seq![s.take(i)] + split_on(s.skip(i + 1), sep)
    } else {
        seq![s]
    }
}

/// The pieces put together again, with `sep` between neighbours.
pub open spec fn join(pieces: Seq<Seq<char>>, sep: char) -> Seq<char>
    decreases pieces.len(),
{
    if pieces.len() == 0 {
        Seq::empty()
    } else if pieces.len() == 1 {
        pieces[0]
    } else {
        pieces[0].push(sep) + join(pieces.skip(1), sep)
    }
}

/// Splitting loses nothing: no piece holds the separator, and the pieces
/// joined by the separator are the text again.
pub proof fn lemma_split_join(s: Seq<char>, sep: char)
    ensures
        split_on(s, sep).len() >= 1,
        forall|k: int, j: int|
            0 <= k < split_on(s, sep).len() && 0 <= j < split_on(s, sep)[k].len()
                ==> #[trigger] split_on(s, sep)[k][j] != sep,
        join(split_on(s, sep), sep) == s,
    decreases s.len(),
{
    let i = position(s, sep);
    lemma_position(s, sep);
    if 0 <= i < s.len() {
        let rest = s.skip(i + 1);
        lemma_split_join(rest, sep);
        let pieces = split_on(s, sep);
        assert(pieces.skip(1) =~= split_on(rest, sep));
        assert(s.take(i).push(sep) + rest =~= s);
        assert forall|k: int, j: int|
            0 <= k < pieces.len() && 0 <= j < pieces[k].len() implies #[trigger] pieces[k][j]
            != sep by {
            if k > 0 {
                assert(pieces[k] == split_on(rest, sep)[k - 1]);
            }
        }
    }
}

/// The texts that a vector of pieces holds.
pub open spec fn texts(pieces: Seq<Vec<char>>) -> Seq<Seq<char>> {
    pieces.map_values(|p: Vec<char>| p@)
}

/// The pieces of `s` between its separators `sep`.
pub fn split_chars(s: &[char], sep: char) -> (r: Vec<Vec<char>>)
    ensures
        texts(r@) == split_on(s@, sep),
{
    let mut pieces: Vec<Vec<char>> = Vec::new();
    let mut start: usize = 0;
    assert(s@.skip(0) =~= s@);
    assert(texts(pieces@) =~= Seq::empty());
    loop
        invariant
            start <= s.len(),
            split_on(s@, sep) == texts(pieces@) + split_on(s@.skip(start as int), sep),
        decreases s.len() - start,
    {
        let rest: &[char] = &s[start..s.len()];
        assert(rest@ =~= s@.skip(start as int));
        match find_char(rest, sep) {
            Some(i) => {
                let mut piece: Vec<char> = Vec::new();
                extend_chars(&mut piece, &rest[0..i]);
                assert(piece@ =~= rest@.take(i as int));
                let ghost before = texts(pieces@);
                pieces.push(piece);
                assert(texts(pieces@) =~= before.push(rest@.take(i as int)));
                assert(rest@.skip(i + 1) =~= s@.skip(start + i + 1));
                start = start + i + 1;
            },
            None => {
                let mut piece: Vec<char> = Vec::new();
                extend_chars(&mut piece, rest);
                let ghost before = texts(pieces@);
                pieces.push(piece);
                assert(texts(pieces@) =~= before.push(rest@));
                return pieces;
            },
        }
    }
}

} // verus!
