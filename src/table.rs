//! Metadata tables: tab-delimited text behind a block of `#` comment lines,
//! the last of which names the columns.

use vstd::prelude::*;

use crate::error::{IoFault, PgenError};
use crate::text::{chars_of, find_char, index_of_in, lemma_index_of_in_bounds, substring};

verus! {

/// Where the line that holds position `i` of `t` ends: its `\n`, or the end
/// of `t`.
pub open spec fn line_end(t: Seq<char>, i: int) -> int {
    index_of_in(t, '\n', i, t.len() as int)
}

/// Where the line after the one that holds position `i` begins.
pub open spec fn next_line(t: Seq<char>, i: int) -> int {
    if line_end(t, i) < t.len() {
        line_end(t, i) + 1
    } else {
        t.len() as int
    }
}

#[via_fn]
proof fn header_from_decreases(t: Seq<char>, i: int) {
    if 0 <= i < t.len() {
        lemma_index_of_in_bounds(t, '\n', i, t.len() as int);
    }
}

/// Scanning the `#` lines from the one that begins at `i`: the position just
/// after the `#` of the last of them, provided that a line that does not
/// begin with `#` follows it.
pub open spec fn header_from(t: Seq<char>, i: int) -> Option<int>
    decreases t.len() - i,
    via header_from_decreases
{
    if i < 0 || i >= t.len() {
        None
    } else {
        let n = next_line(t, i);
        if n >= t.len() {
            None
        } else if t[n] != '#' {
            Some(i + 1)
        } else {
            header_from(t, n)
        }
    }
}

/// Where the column names of the table `t` begin: just after the `#` of its
/// last leading `#` line, or why there is no such place.
pub open spec fn header_start(t: Seq<char>) -> Result<int, IoFault> {
    if t.len() == 0 {
        Err(IoFault::UnexpectedEof)
    } else if t[0] != '#' {
        Err(IoFault::MissingHeader)
    } else {
        match header_from(t, 0) {
            Some(h) => Ok(h),
            None => Err(IoFault::UnexpectedEof),
        }
    }
}

/// Finds where the column names of the table `t` begin: just after the `#`
/// of the last line of the leading `#` block, which is the column header.
/// The table must begin with `#`, and a line that does not begin with `#`
/// must follow the block.
pub fn find_metadata_file_header_start(t: &Vec<char>) -> (r: Result<usize, IoFault>)
    ensures
        r matches Ok(h) ==> header_start(t@) == Ok::<int, IoFault>(h as int),
        r matches Err(e) ==> header_start(t@) == Err::<int, IoFault>(e),
{
    let len = t.len();
    if len == 0 {
        return Err(IoFault::UnexpectedEof);
    }
    if t[0] != '#' {
        return Err(IoFault::MissingHeader);
    }
    let mut i: usize = 0;
    while i < len
        invariant
            len == t@.len(),
            i < len,
            t@[i as int] == '#',
            header_from(t@, i as int) == header_from(t@, 0),
            header_start(t@) == match header_from(t@, 0) {
                Some(h) => Ok::<int, IoFault>(h),
                None => Err(IoFault::UnexpectedEof),
            },
        decreases len - i,
    {
        let e = find_char(t, '\n', i, len);
        proof {
            lemma_index_of_in_bounds(t@, '\n', i as int, len as int);
        }
        if e >= len || e + 1 >= len {
            return Err(IoFault::UnexpectedEof);
        }
        let n = e + 1;
        if t[n] != '#' {
            return Ok(i + 1);
        }
        i = n;
    }
    Err(IoFault::UnexpectedEof)
}

#[via_fn]
proof fn last_hash_line_decreases(t: Seq<char>, i: int) {
    if 0 <= i < t.len() {
        lemma_index_of_in_bounds(t, '\n', i, t.len() as int);
    }
}

/// Scanning the `#` lines from the one that begins at `i`: where the last
/// line of the block of `#` lines begins.
pub open spec fn last_hash_line(t: Seq<char>, i: int) -> int
    decreases t.len() - i,
    via last_hash_line_decreases
{
    if i < 0 || i >= t.len() {
        i
    } else {
        let n = next_line(t, i);
        if n < t.len() && t[n] == '#' {
            last_hash_line(t, n)
        } else {
            i
        }
    }
}

proof fn lemma_last_hash_line(t: Seq<char>, i: int)
    requires
        0 <= i < t.len(),
        t[i] == '#',
    ensures
        i <= last_hash_line(t, i) < t.len(),
        t[last_hash_line(t, i)] == '#',
    decreases t.len() - i,
{
    lemma_index_of_in_bounds(t, '\n', i, t.len() as int);
    let n = next_line(t, i);
    if n < t.len() && t[n] == '#' {
        lemma_last_hash_line(t, n);
    }
}

/// Where the last line of the leading `#` block of the table `t` begins (the
/// column header line), or why `t` has no such block.
pub open spec fn header_block(t: Seq<char>) -> Result<int, IoFault> {
    if t.len() == 0 {
        Err(IoFault::UnexpectedEof)
    } else if t[0] != '#' {
        Err(IoFault::MissingHeader)
    } else {
        Ok(last_hash_line(t, 0))
    }
}

/// The comment lines of the table `t` before the header line at `s`, with
/// their line ends.
pub open spec fn comment_block(t: Seq<char>, s: int) -> Seq<char> {
    t.subrange(0, s)
}

/// The header line that begins at `s`, as it stands, with its line end.
pub open spec fn header_line(t: Seq<char>, s: int) -> Seq<char> {
    t.subrange(s, next_line(t, s))
}

/// Splits the leading block of `#` lines of the table `text` into the lines
/// before its last one and that last line, the column header, each as it
/// stands with its line end. What follows the block (data lines, or nothing)
/// is not read.
pub fn read_pvar_header(text: &str) -> (r: Result<(String, String), IoFault>)
    ensures
        r matches Ok((c, l)) ==> header_block(text@) matches Ok(s) && c@ == comment_block(
            text@,
            s,
        ) && l@ == header_line(text@, s),
        r matches Err(e) ==> header_block(text@) == Err::<int, IoFault>(e),
{
    let t = chars_of(text);
    let len = t.len();
    if len == 0 {
        return Err(IoFault::UnexpectedEof);
    }
    if t[0] != '#' {
        return Err(IoFault::MissingHeader);
    }
    let mut i: usize = 0;
    let mut n: usize = 0;
    loop
        invariant
            len == t@.len(),
            t@ == text@,
            i < len,
            t@[i as int] == '#',
            last_hash_line(t@, i as int) == last_hash_line(t@, 0),
        ensures
            i < len,
            last_hash_line(t@, i as int) == last_hash_line(t@, 0),
            n == next_line(t@, i as int),
            i < n <= len,
            !(n < len && t@[n as int] == '#'),
        decreases len - i,
    {
        proof {
            lemma_index_of_in_bounds(t@, '\n', i as int, len as int);
        }
        let e = find_char(&t, '\n', i, len);
        n = if e < len {
            e + 1
        } else {
            len
        };
        if n < len && t[n] == '#' {
            i = n;
        } else {
            break;
        }
    }
    let comments = substring(text, 0, i);
    let line = substring(text, i, n);
    Ok((comments, line))
}

proof fn lemma_header_from_bounds(t: Seq<char>, i: int)
    requires
        0 <= i < t.len(),
    ensures
        header_from(t, i) matches Some(h) ==> i + 1 <= h < t.len(),
    decreases t.len() - i,
{
    lemma_index_of_in_bounds(t, '\n', i, t.len() as int);
    let n = next_line(t, i);
    if n < t.len() && t[n] == '#' {
        lemma_header_from_bounds(t, n);
    }
}

/// The header position lies inside the table, after its first character.
pub proof fn lemma_header_start_bounds(t: Seq<char>)
    ensures
        header_start(t) matches Ok(h) ==> 1 <= h < t.len(),
{
    if t.len() > 0 && t[0] == '#' {
        lemma_header_from_bounds(t, 0);
    }
}

/// The text of `lines`, each followed by a line break.
pub open spec fn lines_text(lines: Seq<Seq<char>>) -> Seq<char>
    decreases lines.len(),
{
    if lines.len() == 0 {
        Seq::empty()
    } else {
        lines[0] + seq!['\n'] + lines_text(lines.drop_first())
    }
}

/// A line that begins with `#` and holds no line break.
pub open spec fn is_hash_line(l: Seq<char>) -> bool {
    l.len() > 0 && l[0] == '#' && !l.contains('\n')
}

proof fn lemma_index_of_in_shift(p: Seq<char>, t: Seq<char>, c: char, i: int, to: int)
    requires
        0 <= i <= to <= t.len(),
    ensures
        index_of_in(p + t, c, p.len() + i, p.len() + to) == p.len() + index_of_in(t, c, i, to),
    decreases to - i,
{
    if i < to {
        assert((p + t)[p.len() + i] == t[i]);
        lemma_index_of_in_shift(p, t, c, i + 1, to);
    }
}

proof fn lemma_index_of_in_found(s: Seq<char>, c: char, from: int, e: int, to: int)
    requires
        0 <= from <= e < to <= s.len(),
        s[e] == c,
        forall|k: int| from <= k < e ==> s[k] != c,
    ensures
        index_of_in(s, c, from, to) == e,
    decreases e - from,
{
    if from < e {
        lemma_index_of_in_found(s, c, from + 1, e, to);
    }
}

proof fn lemma_header_from_shift(p: Seq<char>, t: Seq<char>, i: int)
    requires
        0 <= i,
    ensures
        header_from(p + t, p.len() + i) == match header_from(t, i) {
            Some(h) => Some(h + p.len()),
            None => None::<int>,
        },
    decreases t.len() - i,
{
    if i < t.len() {
        lemma_index_of_in_shift(p, t, '\n', i, t.len() as int);
        lemma_index_of_in_bounds(t, '\n', i, t.len() as int);
        let n = next_line(t, i);
        assert(next_line(p + t, p.len() + i) == p.len() + n);
        if n < t.len() {
            assert((p + t)[p.len() + n] == t[n]);
            if t[n] == '#' {
                lemma_header_from_shift(p, t, n);
            }
        }
    }
}

/// Splits off the first line of a text made of a line and what follows it.
proof fn lemma_first_line(l: Seq<char>, rest: Seq<char>)
    requires
        !l.contains('\n'),
    ensures
        next_line(l + seq!['\n'] + rest, 0) == l.len() + 1,
{
    let s = l + seq!['\n'] + rest;
    assert forall|k: int| 0 <= k < l.len() implies s[k] != '\n' by {
        assert(s[k] == l[k]);
        if l[k] == '\n' {
            assert(l.contains('\n'));
        }
    }
    assert(s[l.len() as int] == '\n');
    lemma_index_of_in_found(s, '\n', 0, l.len() as int, s.len() as int);
}

proof fn lemma_header_from_comments(comments: Seq<Seq<char>>, header: Seq<char>, rest: Seq<char>)
    requires
        forall|i: int| 0 <= i < comments.len() ==> is_hash_line(#[trigger] comments[i]),
        is_hash_line(header),
        rest.len() > 0,
        rest[0] != '#',
    ensures
        header_from(lines_text(comments) + (header + seq!['\n'] + rest), 0) == Some(
            lines_text(comments).len() as int + 1,
        ),
        (lines_text(comments) + (header + seq!['\n'] + rest))[0] == '#',
    decreases comments.len(),
{
    let h = header + seq!['\n'] + rest;
    if comments.len() == 0 {
        assert(lines_text(comments) + h =~= h);
        lemma_first_line(header, rest);
        assert(h[header.len() as int + 1] == rest[0]);
    } else {
        let c0 = comments[0];
        let tail = comments.drop_first();
        assert forall|i: int| 0 <= i < tail.len() implies is_hash_line(#[trigger] tail[i]) by {
            assert(tail[i] == comments[i + 1]);
        }
        lemma_header_from_comments(tail, header, rest);
        let inner = lines_text(tail) + h;
        let pre = c0 + seq!['\n'];
        assert(lines_text(comments) + h =~= pre + inner);
        assert(c0 + seq!['\n'] + inner =~= pre + inner);
        lemma_first_line(c0, inner);
        assert((pre + inner)[pre.len() as int] == inner[0]);
        lemma_header_from_shift(pre, inner, 0);
        assert(pre.len() + 0 == c0.len() + 1);
    }
}

proof fn lemma_header_from_only_comments(comments: Seq<Seq<char>>)
    requires
        comments.len() > 0,
        forall|i: int| 0 <= i < comments.len() ==> is_hash_line(#[trigger] comments[i]),
    ensures
        header_from(lines_text(comments), 0) is None,
        lines_text(comments)[0] == '#',
    decreases comments.len(),
{
    let c0 = comments[0];
    let tail = comments.drop_first();
    let inner = lines_text(tail);
    let pre = c0 + seq!['\n'];
    assert(lines_text(comments) =~= pre + inner);
    assert(c0 + seq!['\n'] + inner =~= pre + inner);
    lemma_first_line(c0, inner);
    assert((pre + inner)[0] == c0[0]);
    if tail.len() > 0 {
        assert forall|i: int| 0 <= i < tail.len() implies is_hash_line(#[trigger] tail[i]) by {
            assert(tail[i] == comments[i + 1]);
        }
        lemma_header_from_only_comments(tail);
        assert((pre + inner)[pre.len() as int] == inner[0]);
        lemma_header_from_shift(pre, inner, 0);
    } else {
        assert(inner =~= Seq::<char>::empty());
    }
}

/// However many `#` comment lines precede the column header line (none, one
/// or many), the column names are found just after the header's `#`, provided
/// a data line follows; a table of `#` lines alone has no header and reads as
/// truncated.
pub proof fn lemma_header_after_comment_lines(
    comments: Seq<Seq<char>>,
    header: Seq<char>,
    rest: Seq<char>,
)
    requires
        forall|i: int| 0 <= i < comments.len() ==> is_hash_line(#[trigger] comments[i]),
        is_hash_line(header),
    ensures
        rest.len() > 0 && rest[0] != '#' ==> header_start(
            lines_text(comments) + (header + seq!['\n'] + rest),
        ) == Ok::<int, IoFault>(lines_text(comments).len() as int + 1),
        header_start(lines_text(comments.push(header))) == Err::<int, IoFault>(
            IoFault::UnexpectedEof,
        ),
{
    if rest.len() > 0 && rest[0] != '#' {
        lemma_header_from_comments(comments, header, rest);
    }
    let all = comments.push(header);
    assert forall|i: int| 0 <= i < all.len() implies is_hash_line(#[trigger] all[i]) by {
        if i < comments.len() {
            assert(all[i] == comments[i]);
        }
    }
    lemma_header_from_only_comments(all);
}

/// What the tab-delimited reader makes of `s`, whose first record names the
/// columns: the column names and the records, or `None` where it refuses the
/// text.
pub uninterp spec fn tsv_table(s: Seq<char>) -> Option<(Seq<Seq<char>>, Seq<Seq<Seq<char>>>)>;

/// Relies on csv's `ReaderBuilder` (tab delimiter, first record as header)
/// with `Reader::headers` and `Reader::records`: the parse is a function of
/// the text, and, the reader not being flexible, every record that it returns
/// has as many fields as the header.
#[verifier::external_body]
fn read_tsv(s: &str) -> (r: Result<(Vec<String>, Vec<Vec<String>>), csv::Error>)
    ensures
        r matches Ok((h, rows)) ==> tsv_table(s@) == Some((h.deep_view(), rows.deep_view())),
        r matches Ok((h, rows)) ==> forall|i: int|
            0 <= i < rows@.len() ==> #[trigger] rows@[i]@.len() == h@.len(),
        r is Err ==> tsv_table(s@) is None,
{
    let mut rdr = csv::ReaderBuilder::new().delimiter(b'\t').has_headers(true).from_reader(
        s.as_bytes(),
    );
    let header: Vec<String> = rdr.headers()?.iter().map(|f| f.to_string()).collect();
    let mut rows: Vec<Vec<String>> = Vec::new();
    for rec in rdr.records() {
        rows.push(rec?.iter().map(|f| f.to_string()).collect());
    }
    Ok((header, rows))
}

/// A metadata table: its column names and its records, in file order.
pub struct MetadataTable {
    pub columns: Vec<String>,
    pub rows: Vec<Vec<String>>,
}

impl MetadataTable {
    /// Every record has one value for each column.
    pub open spec fn wf(&self) -> bool {
        forall|i: int| 0 <= i < self.rows@.len() ==> #[trigger] self.rows@[i]@.len() == self.columns@.len()
    }

    pub open spec fn column_names(&self) -> Seq<Seq<char>> {
        self.columns.deep_view()
    }

    pub open spec fn records(&self) -> Seq<Seq<Seq<char>>> {
        self.rows.deep_view()
    }

    /// The table that the text `t` holds, where there is one.
    pub open spec fn parsed_from(&self, t: Seq<char>) -> bool {
        header_start(t) matches Ok(h) && tsv_table(t.subrange(h, t.len() as int)) == Some(
            (self.column_names(), self.records()),
        )
    }

    /// Reads the table whose whole text is `text`: locates the column header
    /// below the comment block, then hands the rest, from the column names on,
    /// to the tab-delimited reader.
    pub fn from_text(text: &str) -> (r: Result<MetadataTable, PgenError>)
        ensures
            r matches Ok(m) ==> m.wf() && m.parsed_from(text@),
            r is Err <==> (header_start(text@) is Err || (header_start(text@) matches Ok(h)
                && tsv_table(text@.subrange(h, text@.len() as int)) is None)),
            r matches Err(PgenError::Io(e)) ==> header_start(text@) == Err::<int, IoFault>(e),
            r matches Err(PgenError::Table(_)) ==> header_start(text@) is Ok,
            r matches Err(e) ==> e is Io || e is Table,
    {
        let t = chars_of(text);
        let h = match find_metadata_file_header_start(&t) {
            Ok(h) => h,
            Err(e) => {
                return Err(PgenError::Io(e));
            },
        };
        proof {
            lemma_header_start_bounds(t@);
        }
        let tail = substring(text, h, t.len());
        match read_tsv(tail.as_str()) {
            Ok((columns, rows)) => Ok(MetadataTable { columns, rows }),
            Err(e) => Err(PgenError::Table(e)),
        }
    }
}

} // verus!
