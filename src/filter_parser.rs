//! Parsing of an INFO condition out of a filter expression, such as
//! `INFO[AC, AN] != '3'`.

use vstd::prelude::*;

use crate::text::{
    chars_of, find_char, find_from, find_str, index_of_in, lemma_find_from_occurs,
    lemma_index_of_in_bounds, substring,
};

verus! {

pub open spec fn is_blank(c: char) -> bool {
    c == ' ' || c == '\t'
}

pub open spec fn is_quote(c: char) -> bool {
    c == '\'' || c == '"'
}

/// The first index in `i..to` that does not hold a blank, else `to`.
pub open spec fn skip_blanks(s: Seq<char>, i: int, to: int) -> int
    decreases to - i,
{
    if i >= to || !is_blank(s[i]) {
        i
    } else {
        skip_blanks(s, i + 1, to)
    }
}

/// The end of `s[from..to]` once trailing blanks are dropped.
pub open spec fn trim_blanks_end(s: Seq<char>, from: int, to: int) -> int
    decreases to - from,
{
    if to <= from || !is_blank(s[to - 1]) {
        to
    } else {
        trim_blanks_end(s, from, to - 1)
    }
}

/// `s[from..to]` without leading and trailing blanks.
pub open spec fn trimmed(s: Seq<char>, from: int, to: int) -> Seq<char> {
    let a = skip_blanks(s, from, to);
    s.subrange(a, trim_blanks_end(s, a, to))
}

#[via_fn]
proof fn keys_from_decreases(s: Seq<char>, i: int, close: int) {
    if i <= close {
        lemma_index_of_in_bounds(s, ',', i, close);
    }
}

/// The comma-separated keys of `s[i..close]`, each trimmed of blanks; `None`
/// where one is empty.
pub open spec fn keys_from(s: Seq<char>, i: int, close: int) -> Option<Seq<Seq<char>>>
    decreases close - i,
    via keys_from_decreases
{
    if i > close {
        None
    } else {
        let e = index_of_in(s, ',', i, close);
        let k = trimmed(s, i, e);
        if k.len() == 0 {
            None
        } else if e < close {
            match keys_from(s, e + 1, close) {
                Some(rest) => Some(seq![k] + rest),
                None => None,
            }
        } else {
            Some(seq![k])
        }
    }
}

/// The first index at or after `i` that holds a blank, else the end.
pub open spec fn token_end(s: Seq<char>, i: int) -> int
    decreases s.len() - i,
{
    if i >= s.len() || is_blank(s[i]) {
        i
    } else {
        token_end(s, i + 1)
    }
}

/// The first index of `v` that does not hold a quote, from `i` on.
pub open spec fn skip_quotes(v: Seq<char>, i: int) -> int
    decreases v.len() - i,
{
    if i >= v.len() || !is_quote(v[i]) {
        i
    } else {
        skip_quotes(v, i + 1)
    }
}

/// The end of `v[from..to]` once trailing quotes are dropped.
pub open spec fn trim_quotes_end(v: Seq<char>, from: int, to: int) -> int
    decreases to - from,
{
    if to <= from || !is_quote(v[to - 1]) {
        to
    } else {
        trim_quotes_end(v, from, to - 1)
    }
}

/// `v` without leading and trailing quote characters.
pub open spec fn strip_quotes(v: Seq<char>) -> Seq<char> {
    let a = skip_quotes(v, 0);
    v.subrange(a, trim_quotes_end(v, a, v.len() as int))
}

pub open spec fn info_open() -> Seq<char> {
    seq!['I', 'N', 'F', 'O', '[']
}

pub open spec fn is_comparison(op: Seq<char>) -> bool {
    op == seq!['=', '='] || op == seq!['!', '=']
}

/// The first INFO condition of the filter `s`: `INFO[` with a comma-separated
/// list of keys and `]`, then `==` or `!=`, then a value token (up to a
/// blank) from which surrounding quotes are dropped; blanks may stand
/// between the parts. `None` where `s` holds no such condition at its first
/// `INFO[`.
pub open spec fn info_query(s: Seq<char>) -> Option<(Seq<Seq<char>>, Seq<char>, Seq<char>)> {
    match find_from(s, info_open(), 0) {
        None => None,
        Some(p) => {
            let ks = p + 5;
            let close = index_of_in(s, ']', ks, s.len() as int);
            if close >= s.len() {
                None
            } else {
                match keys_from(s, ks, close) {
                    None => None,
                    Some(keys) => {
                        let o = skip_blanks(s, close + 1, s.len() as int);
                        if o + 2 > s.len() || !is_comparison(s.subrange(o, o + 2)) {
                            None
                        } else {
                            let v = skip_blanks(s, o + 2, s.len() as int);
                            let ve = token_end(s, v);
                            if ve == v {
                                None
                            } else {
                                Some((keys, s.subrange(o, o + 2), strip_quotes(s.subrange(v, ve))))
                            }
                        }
                    },
                }
            }
        },
    }
}

fn skip_blanks_exec(v: &Vec<char>, i: usize, to: usize) -> (r: usize)
    requires
        i <= to <= v@.len(),
    ensures
        r == skip_blanks(v@, i as int, to as int),
        i <= r <= to,
{
    let mut k = i;
    while k < to && (v[k] == ' ' || v[k] == '\t')
        invariant
            i <= k <= to,
            to <= v@.len(),
            skip_blanks(v@, k as int, to as int) == skip_blanks(v@, i as int, to as int),
        decreases to - k,
    {
        k = k + 1;
    }
    k
}

fn trim_blanks_end_exec(v: &Vec<char>, from: usize, to: usize) -> (r: usize)
    requires
        from <= to <= v@.len(),
    ensures
        r == trim_blanks_end(v@, from as int, to as int),
        from <= r <= to,
{
    let mut k = to;
    while k > from && (v[k - 1] == ' ' || v[k - 1] == '\t')
        invariant
            from <= k <= to,
            to <= v@.len(),
            trim_blanks_end(v@, from as int, k as int) == trim_blanks_end(v@, from as int, to as int),
        decreases k,
    {
        k = k - 1;
    }
    k
}

fn token_end_exec(v: &Vec<char>, i: usize) -> (r: usize)
    requires
        i <= v@.len(),
    ensures
        r == token_end(v@, i as int),
        i <= r <= v@.len(),
{
    let mut k = i;
    while k < v.len() && !(v[k] == ' ' || v[k] == '\t')
        invariant
            i <= k <= v@.len(),
            token_end(v@, k as int) == token_end(v@, i as int),
        decreases v@.len() - k,
    {
        k = k + 1;
    }
    k
}

/// `text[from..to]` (whose characters are `v[from..to]`) without leading and
/// trailing quotes.
fn strip_quotes_exec(text: &str, v: &Vec<char>, from: usize, to: usize) -> (r: String)
    requires
        v@ == text@,
        from <= to <= v@.len(),
    ensures
        r@ == strip_quotes(v@.subrange(from as int, to as int)),
{
    let ghost w = v@.subrange(from as int, to as int);
    let mut a = from;
    while a < to && (v[a] == '\'' || v[a] == '"')
        invariant
            from <= a <= to,
            to <= v@.len(),
            w == v@.subrange(from as int, to as int),
            skip_quotes(w, a - from) == skip_quotes(w, 0),
        decreases to - a,
    {
        a = a + 1;
    }
    let mut b = to;
    while b > a && (v[b - 1] == '\'' || v[b - 1] == '"')
        invariant
            a <= b <= to,
            from <= a,
            to <= v@.len(),
            w == v@.subrange(from as int, to as int),
            trim_quotes_end(w, a - from, b - from) == trim_quotes_end(w, a - from, to - from),
        decreases b,
    {
        b = b - 1;
    }
    assert(w.subrange(a - from, b - from) =~= v@.subrange(a as int, b as int));
    substring(text, a, b)
}

/// The trimmed keys of `text[i..close]` (whose characters are `v`), split
/// at commas; `None` where one is empty.
fn parse_keys(text: &str, v: &Vec<char>, i: usize, close: usize) -> (r: Option<Vec<String>>)
    requires
        v@ == text@,
        i <= close <= v@.len(),
    ensures
        r matches Some(ks) ==> keys_from(v@, i as int, close as int) == Some(ks.deep_view()),
        r is None ==> keys_from(v@, i as int, close as int) is None,
{
    let mut keys: Vec<String> = Vec::new();
    let mut at = i;
    assert(keys.deep_view() =~= Seq::<Seq<char>>::empty());
    loop
        invariant
            v@ == text@,
            i <= at <= close,
            close <= v@.len(),
            keys_from(v@, i as int, close as int) == match keys_from(v@, at as int, close as int) {
                Some(rest) => Some(keys.deep_view() + rest),
                None => None::<Seq<Seq<char>>>,
            },
        decreases close - at,
    {
        proof {
            lemma_index_of_in_bounds(v@, ',', at as int, close as int);
        }
        let e = find_char(v, ',', at, close);
        let a = skip_blanks_exec(v, at, e);
        let b = trim_blanks_end_exec(v, a, e);
        if b == a {
            assert(trimmed(v@, at as int, e as int).len() == 0);
            return None;
        }
        let k = substring(text, a, b);
        let ghost before = keys.deep_view();
        keys.push(k);
        assert(keys.deep_view() =~= before.push(k@));
        if e == close {
            assert(keys.deep_view() =~= before + seq![k@]);
            return Some(keys);
        }
        proof {
            match keys_from(v@, e + 1, close as int) {
                Some(rest) => {
                    assert(before + (seq![k@] + rest) =~= keys.deep_view() + rest);
                },
                None => {},
            }
        }
        at = e + 1;
    }
}

/// The filter expression parser.
pub struct FilterParser;

impl FilterParser {
    /// The first INFO condition of the filter `input`, as two lists: the
    /// keys, then the comparison operator and the value without its quotes.
    pub fn get_info_query(input: &str) -> (r: Option<Vec<Vec<String>>>)
        ensures
            r is None <==> info_query(input@) is None,
            r matches Some(v) ==> v@.len() == 2 && v@[1]@.len() == 2 && info_query(input@) == Some(
                (v@[0].deep_view(), v@[1]@[0]@, v@[1]@[1]@),
            ),
    {
        let s = chars_of(input);
        let open: Vec<char> = vec!['I', 'N', 'F', 'O', '['];
        assert(open@ =~= info_open());
        let p = match find_str(&s, &open) {
            Some(p) => p,
            None => {
                return None;
            },
        };
        proof {
            lemma_find_from_occurs(s@, open@, 0);
        }
        let n = s.len();
        let ks = p + 5;
        proof {
            lemma_index_of_in_bounds(s@, ']', ks as int, n as int);
        }
        let close = find_char(&s, ']', ks, n);
        if close >= n {
            return None;
        }
        let keys = match parse_keys(input, &s, ks, close) {
            Some(k) => k,
            None => {
                return None;
            },
        };
        let o = skip_blanks_exec(&s, close + 1, n);
        if n - o < 2 {
            return None;
        }
        let eq = s[o] == '=' && s[o + 1] == '=';
        let ne = s[o] == '!' && s[o + 1] == '=';
        assert(s@.subrange(o as int, o + 2) =~= seq![s@[o as int], s@[o + 1]]);
        if !(eq || ne) {
            return None;
        }
        let op = substring(input, o, o + 2);
        let vstart = skip_blanks_exec(&s, o + 2, n);
        let vend = token_end_exec(&s, vstart);
        if vend == vstart {
            return None;
        }
        let value = strip_quotes_exec(input, &s, vstart, vend);
        let mut filter_vals: Vec<String> = Vec::new();
        filter_vals.push(op);
        filter_vals.push(value);
        let mut info_vals: Vec<Vec<String>> = Vec::new();
        info_vals.push(keys);
        info_vals.push(filter_vals);
        Some(info_vals)
    }
}

} // verus!
