//! Character-level helpers on strings.

use vstd::prelude::*;

verus! {

/// The first index at or after `from` (and before `to`) where `s` holds `c`;
/// `to` where there is none.
pub open spec fn index_of_in(s: Seq<char>, c: char, from: int, to: int) -> int
    decreases to - from,
{
    if from >= to {
        to
    } else if s[from] == c {
        from
    } else {
        index_of_in(s, c, from + 1, to)
    }
}

pub proof fn lemma_index_of_in_bounds(s: Seq<char>, c: char, from: int, to: int)
    requires
        from <= to,
    ensures
        from <= index_of_in(s, c, from, to) <= to,
        forall|k: int| from <= k < index_of_in(s, c, from, to) ==> s[k] != c,
        index_of_in(s, c, from, to) < to ==> s[index_of_in(s, c, from, to)] == c,
    decreases to - from,
{
    if from < to && s[from] != c {
        lemma_index_of_in_bounds(s, c, from + 1, to);
    }
}

/// The characters of `s`, in order.
pub fn chars_of(s: &str) -> (r: Vec<char>)
    ensures
        r@ == s@,
{
    let mut r: Vec<char> = Vec::new();
    for c in it: s.chars()
        invariant
            r@ == it.seq().take(it.index() as int),
    {
        r.push(c);
    }
    r
}

/// The first index in `from..to` where `v` holds `c`, else `to`.
pub fn find_char(v: &Vec<char>, c: char, from: usize, to: usize) -> (r: usize)
    requires
        from <= to <= v@.len(),
    ensures
        r == index_of_in(v@, c, from as int, to as int),
        from <= r <= to,
{
    let mut i = from;
    while i < to
        invariant
            from <= i <= to,
            to <= v@.len(),
            index_of_in(v@, c, i as int, to as int) == index_of_in(v@, c, from as int, to as int),
        decreases to - i,
    {
        if v[i] == c {
            return i;
        }
        i = i + 1;
    }
    i
}

/// The characters `from..to` of `s`, as a new string.
pub fn substring(s: &str, from: usize, to: usize) -> (r: String)
    requires
        from <= to <= s@.len(),
    ensures
        r@ == s@.subrange(from as int, to as int),
{
    String::from_str(s.substring_char(from, to))
}

/// The Unicode `White_Space` characters.
pub open spec fn is_white_space(c: char) -> bool {
    ('\u{9}' <= c && c <= '\u{d}') || c == ' ' || c == '\u{85}' || c == '\u{a0}' || c
        == '\u{1680}' || ('\u{2000}' <= c && c <= '\u{200a}') || c == '\u{2028}' || c
        == '\u{2029}' || c == '\u{202f}' || c == '\u{205f}' || c == '\u{3000}'
}

fn is_white_space_exec(c: char) -> (r: bool)
    ensures
        r == is_white_space(c),
{
    ('\u{9}' <= c && c <= '\u{d}') || c == ' ' || c == '\u{85}' || c == '\u{a0}' || c
        == '\u{1680}' || ('\u{2000}' <= c && c <= '\u{200a}') || c == '\u{2028}' || c
        == '\u{2029}' || c == '\u{202f}' || c == '\u{205f}' || c == '\u{3000}'
}

/// The first index from `i` on that does not hold white space.
pub open spec fn skip_white(s: Seq<char>, i: int) -> int
    decreases s.len() - i,
{
    if i < 0 || i >= s.len() || !is_white_space(s[i]) {
        i
    } else {
        skip_white(s, i + 1)
    }
}

/// The end of `s[from..to]` once trailing white space is dropped.
pub open spec fn trim_white_end(s: Seq<char>, from: int, to: int) -> int
    decreases to - from,
{
    if to <= from || !is_white_space(s[to - 1]) {
        to
    } else {
        trim_white_end(s, from, to - 1)
    }
}

/// `s` without leading and trailing white space.
pub open spec fn trimmed_white(s: Seq<char>) -> Seq<char> {
    let a = skip_white(s, 0);
    s.subrange(a, trim_white_end(s, a, s.len() as int))
}

/// `s` without leading and trailing white space.
pub fn trim(s: &str) -> (r: String)
    ensures
        r@ == trimmed_white(s@),
{
    let v = chars_of(s);
    let n = v.len();
    let mut a: usize = 0;
    while a < n && is_white_space_exec(v[a])
        invariant
            n == v@.len(),
            a <= n,
            skip_white(v@, a as int) == skip_white(v@, 0),
        decreases n - a,
    {
        a = a + 1;
    }
    let mut b: usize = n;
    while b > a && is_white_space_exec(v[b - 1])
        invariant
            n == v@.len(),
            a <= b <= n,
            trim_white_end(v@, a as int, b as int) == trim_white_end(v@, a as int, n as int),
        decreases b,
    {
        b = b - 1;
    }
    substring(s, a, b)
}

/// Whether `t` holds `p` at position `at`.
pub open spec fn occurs_at(t: Seq<char>, p: Seq<char>, at: int) -> bool {
    0 <= at && at + p.len() <= t.len() && t.subrange(at, at + p.len()) == p
}

/// Whether `v` holds `p` at position `at`.
pub fn matches_at(v: &Vec<char>, p: &Vec<char>, at: usize) -> (r: bool)
    ensures
        r == occurs_at(v@, p@, at as int),
{
    if at > v.len() || p.len() > v.len() - at {
        return false;
    }
    let vl = v.len();
    let mut k: usize = 0;
    while k < p.len()
        invariant
            vl == v@.len(),
            at + p@.len() <= v@.len(),
            k <= p@.len(),
            forall|q: int| 0 <= q < k ==> v@[at + q] == p@[q],
        decreases p.len() - k,
    {
        if v[at + k] != p[k] {
            assert(v@.subrange(at as int, at + p@.len())[k as int] != p@[k as int]);
            return false;
        }
        k = k + 1;
    }
    assert(v@.subrange(at as int, at + p@.len()) =~= p@);
    true
}

/// The first position at or after `from` where `p` occurs in `t`, if any.
pub open spec fn find_from(t: Seq<char>, p: Seq<char>, from: int) -> Option<int>
    decreases t.len() + 1 - from,
{
    if from < 0 || from > t.len() {
        None
    } else if occurs_at(t, p, from) {
        Some(from)
    } else {
        find_from(t, p, from + 1)
    }
}

pub proof fn lemma_find_from_occurs(t: Seq<char>, p: Seq<char>, from: int)
    ensures
        find_from(t, p, from) matches Some(i) ==> occurs_at(t, p, i) && from <= i,
    decreases t.len() + 1 - from,
{
    if 0 <= from <= t.len() && !occurs_at(t, p, from) {
        lemma_find_from_occurs(t, p, from + 1);
    }
}

/// The first position where `p` occurs in `v`, if any.
pub fn find_str(v: &Vec<char>, p: &Vec<char>) -> (r: Option<usize>)
    ensures
        r matches Some(i) ==> find_from(v@, p@, 0) == Some(i as int),
        r is None ==> find_from(v@, p@, 0) is None,
{
    let mut i: usize = 0;
    while i <= v.len()
        invariant
            i <= v@.len() + 1,
            find_from(v@, p@, i as int) == find_from(v@, p@, 0),
        decreases v@.len() + 1 - i,
    {
        if matches_at(v, p, i) {
            return Some(i);
        }
        if i == v.len() {
            assert(find_from(v@, p@, i + 1) is None);
            return None;
        }
        i = i + 1;
    }
    None
}

} // verus!
