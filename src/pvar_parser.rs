//! Parsing of the variant table's text: INFO annotations, INFO header
//! lines, and the fields of a data line.

use vstd::prelude::*;

use crate::table::{line_end, next_line};
use crate::text::{
    chars_of, find_char, find_from, find_str, index_of_in, lemma_find_from_occurs, occurs_at,
    lemma_index_of_in_bounds, substring,
};
use crate::varmap::VarMap;

verus! {

/// The binding of one INFO segment `s[from..to]`: the key before its first
/// `=` and the value after it, or the whole segment with an empty value.
pub open spec fn info_segment(s: Seq<char>, from: int, to: int) -> (Seq<char>, Seq<char>) {
    let q = index_of_in(s, '=', from, to);
    if q < to {
        (s.subrange(from, q), s.subrange(q + 1, to))
    } else {
        (s.subrange(from, to), Seq::empty())
    }
}

#[via_fn]
proof fn info_entries_decreases(s: Seq<char>, i: int) {
    if 0 <= i <= s.len() {
        lemma_index_of_in_bounds(s, ';', i, s.len() as int);
    }
}

/// The bindings of the `;`-separated segments of `s` from position `i` on,
/// in order; an empty segment binds nothing.
pub open spec fn info_entries_from(s: Seq<char>, i: int) -> Seq<(Seq<char>, Seq<char>)>
    decreases s.len() - i,
    via info_entries_decreases
{
    if i < 0 || i > s.len() {
        Seq::empty()
    } else {
        let e = index_of_in(s, ';', i, s.len() as int);
        let here = if e == i {
            Seq::empty()
        } else {
            seq![info_segment(s, i, e)]
        };
        if e < s.len() {
            here + info_entries_from(s, e + 1)
        } else {
            here
        }
    }
}

/// The bindings of an INFO value, in order.
pub open spec fn info_entries(s: Seq<char>) -> Seq<(Seq<char>, Seq<char>)> {
    info_entries_from(s, 0)
}

/// Text that begins an INFO header line, up to the key.
pub open spec fn info_header_prefix() -> Seq<char> {
    seq!['#', '#', 'I', 'N', 'F', 'O', '=', '<', 'I', 'D', '=']
}

/// Characters that an INFO key may hold.
pub open spec fn is_key_char(c: char) -> bool {
    ('a' <= c && c <= 'z') || ('A' <= c && c <= 'Z') || ('0' <= c && c <= '9') || c == '_'
        || c == '.'
}

/// The end of the run of key characters of `s` that begins at `i`.
pub open spec fn key_end(s: Seq<char>, i: int) -> int
    decreases s.len() - i,
{
    if i < 0 || i >= s.len() || !is_key_char(s[i]) {
        i
    } else {
        key_end(s, i + 1)
    }
}

/// The key that an INFO header line `s` declares, if it is one.
pub open spec fn meta_idname(s: Seq<char>) -> Option<Seq<char>> {
    let p = info_header_prefix().len() as int;
    if s.len() >= p && s.subrange(0, p) == info_header_prefix() && key_end(s, p) > p {
        Some(s.subrange(p, key_end(s, p)))
    } else {
        None
    }
}

/// The columns of a standard variant table data line.
pub enum ParsingRules {
    CHROM,
    POS,
    ID,
    REF,
    ALT,
    QUAL,
    FILTER,
    INFO,
}

/// Position of a column in a standard variant table data line.
pub open spec fn rule_index(rule: ParsingRules) -> int {
    match rule {
        ParsingRules::CHROM => 0,
        ParsingRules::POS => 1,
        ParsingRules::ID => 2,
        ParsingRules::REF => 3,
        ParsingRules::ALT => 4,
        ParsingRules::QUAL => 5,
        ParsingRules::FILTER => 6,
        ParsingRules::INFO => 7,
    }
}

/// Position of a column in a standard variant table data line.
pub fn get_rule(rule_name: ParsingRules) -> (r: usize)
    ensures
        r == rule_index(rule_name),
{
    match rule_name {
        ParsingRules::CHROM => 0,
        ParsingRules::POS => 1,
        ParsingRules::ID => 2,
        ParsingRules::REF => 3,
        ParsingRules::ALT => 4,
        ParsingRules::QUAL => 5,
        ParsingRules::FILTER => 6,
        ParsingRules::INFO => 7,
    }
}

/// Where the `k`th tab-separated field of `s` begins, scanning from `i`.
pub open spec fn field_start(s: Seq<char>, i: int, k: nat) -> Option<int>
    decreases k,
{
    if k == 0 {
        Some(i)
    } else {
        let e = index_of_in(s, '\t', i, s.len() as int);
        if e < s.len() {
            field_start(s, e + 1, (k - 1) as nat)
        } else {
            None
        }
    }
}

/// The `k`th tab-separated field of the line `s`, if it has one.
pub open spec fn line_field(s: Seq<char>, k: nat) -> Option<Seq<char>> {
    match field_start(s, 0, k) {
        Some(b) => Some(s.subrange(b, index_of_in(s, '\t', b, s.len() as int))),
        None => None,
    }
}

/// What follows the first occurrence of `key` in `s`, up to the next `;`.
pub open spec fn kv_after(s: Seq<char>, key: Seq<char>) -> Option<Seq<char>> {
    match find_from(s, key, 0) {
        Some(p) => Some(
            s.subrange(p + key.len(), index_of_in(s, ';', p + key.len(), s.len() as int)),
        ),
        None => None,
    }
}

/// The variant table's text parser.
pub struct PvarParser;

impl PvarParser {
    /// The characters of `input` from `start_index` on, if that is inside it.
    pub fn get_substring_from_index(input: &str, start_index: usize) -> (r: Option<String>)
        ensures
            start_index < input@.len() ==> (r matches Some(t) && t@ == input@.subrange(
                start_index as int,
                input@.len() as int,
            )),
            start_index >= input@.len() ==> r is None,
    {
        let n = input.unicode_len();
        if start_index < n {
            Some(substring(input, start_index, n))
        } else {
            None
        }
    }

    /// The key that the INFO header line `input` (`##INFO=<ID=key,...>`)
    /// declares, if it is one.
    pub fn get_meta_idname(input: &str) -> (r: Option<String>)
        ensures
            r matches Some(k) ==> meta_idname(input@) == Some(k@),
            r is None ==> meta_idname(input@) is None,
    {
        let s = chars_of(input);
        let prefix: Vec<char> = vec!['#', '#', 'I', 'N', 'F', 'O', '=', '<', 'I', 'D', '='];
        assert(prefix@ =~= info_header_prefix());
        assert(info_header_prefix().len() == 11);
        if s.len() < 11 {
            assert(input@.len() < info_header_prefix().len());
            return None;
        }
        let mut k: usize = 0;
        while k < prefix.len()
            invariant
                prefix@ == info_header_prefix(),
                s@ == input@,
                s@.len() >= prefix@.len(),
                k <= prefix@.len(),
                forall|q: int| 0 <= q < k ==> s@[q] == prefix@[q],
            decreases prefix.len() - k,
        {
            if s[k] != prefix[k] {
                assert(s@.subrange(0, prefix@.len() as int)[k as int] != info_header_prefix()[k as int]);
                return None;
            }
            k = k + 1;
        }
        assert(s@.subrange(0, prefix@.len() as int) =~= info_header_prefix());
        let p = prefix.len();
        let mut e = p;
        while e < s.len() && is_key_char_exec(s[e])
            invariant
                p <= e <= s@.len(),
                key_end(s@, e as int) == key_end(s@, p as int),
            decreases s.len() - e,
        {
            e = e + 1;
        }
        Self::get_substring_from_index(&substring(input, 0, e), p)
    }

    /// The keys of the INFO header lines of the variant table `text`, in
    /// order, up to the column header line (the first that holds `#CHROM`).
    pub fn get_meta_idnames(text: &str) -> (r: Vec<String>)
        ensures
            r.deep_view() == meta_idnames_from(text@, 0),
    {
        let t = chars_of(text);
        let chrom: Vec<char> = vec!['#', 'C', 'H', 'R', 'O', 'M'];
        assert(chrom@ =~= chrom_marker());
        let mut out: Vec<String> = Vec::new();
        let mut i: usize = 0;
        assert(out.deep_view() =~= Seq::<Seq<char>>::empty());
        while i < t.len()
            invariant
                t@ == text@,
                chrom@ == chrom_marker(),
                i <= t@.len(),
                out.deep_view() + meta_idnames_from(text@, i as int) == meta_idnames_from(text@, 0),
            decreases t.len() - i,
        {
            proof {
                lemma_index_of_in_bounds(t@, '\n', i as int, t@.len() as int);
            }
            let e = find_char(&t, '\n', i, t.len());
            let line = substring(text, i, e);
            let lc = chars_of(line.as_str());
            let ghost rest = meta_idnames_from(text@, next_line(text@, i as int));
            let next = if e < t.len() {
                e + 1
            } else {
                t.len()
            };
            match Self::get_meta_idname(line.as_str()) {
                Some(k) => {
                    let ghost before = out.deep_view();
                    out.push(k);
                    assert(out.deep_view() =~= before.push(k@));
                    assert(out.deep_view() + rest =~= before + (seq![k@] + rest));
                },
                None => {
                    if find_str(&lc, &chrom).is_some() {
                        return out;
                    }
                },
            }
            i = next;
        }
        assert(out.deep_view() + Seq::<Seq<char>>::empty() =~= out.deep_view());
        out
    }

    /// The INFO bindings of an INFO value `input`: its `;`-separated segments,
    /// each `key=value` or a bare `key` (bound to the empty string), in order,
    /// a later binding of a key hiding an earlier one.
    pub fn get_info_kv_pairs(input: &str) -> (r: VarMap)
        ensures
            r.pairs() == info_entries(input@),
    {
        let s = chars_of(input);
        let n = s.len();
        let mut kv = VarMap::new();
        let mut i: usize = 0;
        let mut more = true;
        while more
            invariant
                s@ == input@,
                n == s@.len(),
                more ==> i <= n,
                more ==> kv.pairs() + info_entries_from(input@, i as int) == info_entries(input@),
                !more ==> kv.pairs() == info_entries(input@),
            decreases if more {
                n + 1 - i
            } else {
                0
            },
        {
            proof {
                lemma_index_of_in_bounds(s@, ';', i as int, n as int);
            }
            let e = find_char(&s, ';', i, n);
            let ghost before = kv.pairs();
            let ghost rest = if e < n {
                info_entries_from(input@, e + 1)
            } else {
                Seq::empty()
            };
            if e > i {
                proof {
                    lemma_index_of_in_bounds(s@, '=', i as int, e as int);
                }
                let q = find_char(&s, '=', i, e);
                let key = substring(input, i, q);
                let value = if q < e {
                    substring(input, q + 1, e)
                } else {
                    String::new()
                };
                assert((key@, value@) == info_segment(input@, i as int, e as int));
                kv.bind(key, value);
                assert(kv.pairs() + rest =~= before + (seq![info_segment(input@, i as int, e as int)]
                    + rest));
            } else {
                assert(Seq::<(Seq<char>, Seq<char>)>::empty() + rest =~= rest);
            }
            if e == n {
                assert(kv.pairs() + Seq::<(Seq<char>, Seq<char>)>::empty() =~= kv.pairs());
                more = false;
            } else {
                i = e + 1;
            }
        }
        kv
    }

    /// The `rule` field of the variant table data line `input`, if the line
    /// has that many fields.
    pub fn get_line_entry(input: &str, rule: ParsingRules) -> (r: Option<String>)
        ensures
            r matches Some(f) ==> line_field(input@, rule_index(rule) as nat) == Some(f@),
            r is None ==> line_field(input@, rule_index(rule) as nat) is None,
    {
        let s = chars_of(input);
        let k = get_rule(rule);
        let mut b: usize = 0;
        let mut left: usize = k;
        while left > 0
            invariant
                s@ == input@,
                b <= s@.len(),
                left <= k,
                field_start(input@, b as int, left as nat) == field_start(
                    input@,
                    0,
                    rule_index(rule) as nat,
                ),
            decreases left,
        {
            let e = find_char(&s, '\t', b, s.len());
            if e >= s.len() {
                return None;
            }
            b = e + 1;
            left = left - 1;
        }
        let e = find_char(&s, '\t', b, s.len());
        Some(substring(input, b, e))
    }

    /// The INFO field of the variant table data line `input`.
    pub fn get_info_line(input: &str) -> (r: Option<String>)
        ensures
            r matches Some(f) ==> line_field(input@, 7) == Some(f@),
            r is None ==> line_field(input@, 7) is None,
    {
        Self::get_line_entry(input, ParsingRules::INFO)
    }

    /// The INFO fields of the data lines (those not beginning with `#`) of
    /// the variant table `text`, in order.
    pub fn get_info_lines(text: &str) -> (r: Vec<String>)
        ensures
            r.deep_view() == info_lines_from(text@, 0),
    {
        let t = chars_of(text);
        let mut out: Vec<String> = Vec::new();
        let mut i: usize = 0;
        assert(out.deep_view() =~= Seq::<Seq<char>>::empty());
        while i < t.len()
            invariant
                t@ == text@,
                i <= t@.len(),
                out.deep_view() + info_lines_from(text@, i as int) == info_lines_from(text@, 0),
            decreases t.len() - i,
        {
            proof {
                lemma_index_of_in_bounds(t@, '\n', i as int, t@.len() as int);
            }
            let e = find_char(&t, '\n', i, t.len());
            let ghost rest = info_lines_from(text@, next_line(text@, i as int));
            let next = if e < t.len() {
                e + 1
            } else {
                t.len()
            };
            if t[i] != '#' {
                let line = substring(text, i, e);
                match Self::get_info_line(line.as_str()) {
                    Some(f) => {
                        let ghost before = out.deep_view();
                        out.push(f);
                        assert(out.deep_view() =~= before.push(f@));
                        assert(out.deep_view() + rest =~= before + (seq![f@] + rest));
                    },
                    None => {},
                }
            }
            i = next;
        }
        assert(out.deep_view() + Seq::<Seq<char>>::empty() =~= out.deep_view());
        out
    }

    /// What follows the first occurrence of `keyname` in `input`, up to the
    /// next `;` or the end.
    pub fn find_kv_pair(input: &str, keyname: &str) -> (r: Option<String>)
        ensures
            r matches Some(v) ==> kv_after(input@, keyname@) == Some(v@),
            r is None ==> kv_after(input@, keyname@) is None,
    {
        let s = chars_of(input);
        let key = chars_of(keyname);
        match find_str(&s, &key) {
            Some(p) => {
                proof {
                    lemma_find_from_occurs(s@, key@, 0);
                }
                assert(occurs_at(s@, key@, p as int));
                let sl = s.len();
                assert(p + key@.len() <= sl);
                let start = p + key.len();
                let end = find_char(&s, ';', start, s.len());
                Some(substring(input, start, end))
            },
            None => None,
        }
    }

    /// Whether `keyname` occurs in `input` with nothing after it up to the
    /// next `;` or the end: a bare flag.
    pub fn find_key(input: &str, keyname: &str) -> (r: bool)
        ensures
            r == (kv_after(input@, keyname@) == Some(Seq::<char>::empty())),
    {
        match Self::find_kv_pair(input, keyname) {
            Some(v) => {
                let l = v.unicode_len();
                proof {
                    if l == 0 {
                        assert(v@ =~= Seq::<char>::empty());
                    }
                }
                l == 0
            },
            None => false,
        }
    }
}

/// Whether `c` may stand in an INFO key.
fn is_key_char_exec(c: char) -> (r: bool)
    ensures
        r == is_key_char(c),
{
    ('a' <= c && c <= 'z') || ('A' <= c && c <= 'Z') || ('0' <= c && c <= '9') || c == '_'
        || c == '.'
}

/// Text that the column header line of a variant table holds.
pub open spec fn chrom_marker() -> Seq<char> {
    seq!['#', 'C', 'H', 'R', 'O', 'M']
}

/// The keys declared by the INFO header lines of `t` from the line at `i`
/// on, stopping at the first line that declares none and holds `#CHROM`.
pub open spec fn meta_idnames_from(t: Seq<char>, i: int) -> Seq<Seq<char>>
    decreases t.len() - i,
    via lines_decrease
{
    if i < 0 || i >= t.len() {
        Seq::empty()
    } else {
        let line = t.subrange(i, line_end(t, i));
        match meta_idname(line) {
            Some(k) => seq![k] + meta_idnames_from(t, next_line(t, i)),
            None => if find_from(line, chrom_marker(), 0) is Some {
                Seq::empty()
            } else {
                meta_idnames_from(t, next_line(t, i))
            },
        }
    }
}

/// The INFO fields of the data lines of `t` from the line at `i` on.
pub open spec fn info_lines_from(t: Seq<char>, i: int) -> Seq<Seq<char>>
    decreases t.len() - i,
    via info_lines_decrease
{
    if i < 0 || i >= t.len() {
        Seq::empty()
    } else {
        let rest = info_lines_from(t, next_line(t, i));
        if t[i] != '#' {
            match line_field(t.subrange(i, line_end(t, i)), 7) {
                Some(f) => seq![f] + rest,
                None => rest,
            }
        } else {
            rest
        }
    }
}

#[via_fn]
proof fn lines_decrease(t: Seq<char>, i: int) {
    if 0 <= i < t.len() {
        lemma_index_of_in_bounds(t, '\n', i, t.len() as int);
    }
}

#[via_fn]
proof fn info_lines_decrease(t: Seq<char>, i: int) {
    if 0 <= i < t.len() {
        lemma_index_of_in_bounds(t, '\n', i, t.len() as int);
    }
}

} // verus!
