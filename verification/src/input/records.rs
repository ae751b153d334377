//! Delimited text: lines, comments, and comma-separated fields.
use vstd::prelude::*;
use vstd::string::StrSliceExecFns;
use crate::scalar::{parse_answers, Scalar};
use vstd::std_specs::iter::IteratorSpec;

verus! {

/// Whether `c` is white space: a character with the Unicode property of that name.
pub open spec fn is_space(c: char) -> bool {
    let n = c as u32;
    ||| 0x09 <= n <= 0x0d
    ||| n == 0x20
    ||| n == 0x85
    ||| n == 0xa0
    ||| n == 0x1680
    ||| 0x2000 <= n <= 0x200a
    ||| n == 0x2028
    ||| n == 0x2029
    ||| n == 0x202f
    ||| n == 0x205f
    ||| n == 0x3000
}

/// The position of the first `ch` in `s`, or the length of `s` where it holds none.
pub open spec fn first_index_of(s: Seq<char>, ch: char) -> int
    decreases s.len(),
{
    if s.len() == 0 || s[0] == ch {
        0
    } else {
        1 + first_index_of(s.skip(1), ch)
    }
}

/// The pieces of `s` between its occurrences of `ch`: one more than there are
/// occurrences, some of them possibly empty.
pub open spec fn split_on(s: Seq<char>, ch: char) -> Seq<Seq<char>>
    decreases s.len(),
{
    let end = first_index_of(s, ch);
    if 0 <= end < s.len() {
        seq![s.take(end)] + split_on(s.skip(end + 1), ch)
    } else {
        seq![s]
    }
}

/// `s` without the white space it begins with.
pub open spec fn trimmed_start(s: Seq<char>) -> Seq<char>
    decreases s.len(),
{
    if s.len() > 0 && is_space(s[0]) {
        trimmed_start(s.skip(1))
    } else {
        s
    }
}

/// `s` without the white space it ends with.
pub open spec fn trimmed_end(s: Seq<char>) -> Seq<char>
    decreases s.len(),
{
    if s.len() > 0 && is_space(s.last()) {
        trimmed_end(s.drop_last())
    } else {
        s
    }
}

/// `s` without the white space around it.
pub open spec fn trimmed(s: Seq<char>) -> Seq<char> {
    trimmed_end(trimmed_start(s))
}

/// `s` without the carriage return it ends with, if it ends with one.
pub open spec fn without_carriage_return(s: Seq<char>) -> Seq<char> {
    if s.len() > 0 && s.last() == '\r' {
        s.drop_last()
    } else {
        s
    }
}

/// The lines of `text`. A line ends at a line feed, or at the end of the text; a
/// carriage return just before the line feed belongs to the line ending. A text
/// that ends with a line ending has no further, empty line after it.
pub open spec fn lines_of(text: Seq<char>) -> Seq<Seq<char>>
    decreases text.len(),
{
    if text.len() == 0 {
        Seq::empty()
    } else {
        let end = first_index_of(text, '\n');
        if 0 <= end < text.len() {
            seq![without_carriage_return(text.take(end))] + lines_of(text.skip(end + 1))
        } else {
            seq![text]
        }
    }
}

/// Whether `line` is a comment: whether it begins with `#`.
pub open spec fn is_comment(line: Seq<char>) -> bool {
    line.len() > 0 && line[0] == '#'
}

/// The fields of `line`: its pieces between commas, each without the white space
/// around it.
pub open spec fn fields_of(line: Seq<char>) -> Seq<Seq<char>> {
    let pieces = split_on(line, ',');
    Seq::new(pieces.len(), |i: int| trimmed(pieces[i]))
}

/// One record of a text: the number of lines before it, and its fields.
#[derive(Debug)]
pub struct Record {
    pub line: usize,
    pub fields: Vec<String>,
}

impl Record {
    /// The fields as sequences of characters.
    pub open spec fn field_views(&self) -> Seq<Seq<char>> {
        Seq::new(self.fields@.len(), |i: int| self.fields@[i]@)
    }
}

/// The records among `lines`: every line that is no comment, with its position
/// and its fields, in the lines' order.
pub open spec fn records_of(lines: Seq<Seq<char>>) -> Seq<(int, Seq<Seq<char>>)>
    decreases lines.len(),
{
    if lines.len() == 0 {
        Seq::empty()
    } else if is_comment(lines.last()) {
        records_of(lines.drop_last())
    } else {
        records_of(lines.drop_last()).push((lines.len() - 1, fields_of(lines.last())))
    }
}

/// The characters of `s`.
fn characters(s: &str) -> (v: Vec<char>)
    ensures
        v@ == s@,
{
    let mut v: Vec<char> = Vec::new();
    for c in it: s.chars()
        invariant
            it.seq() == s@,
            v@ == it.seq().take(it.index() as int),
    {
        v.push(c);
    }
    v
}

/// Whether `c` is white space.
fn is_space_char(c: char) -> (r: bool)
    ensures
        r == is_space(c),
{
    let n = c as u32;
    (0x09 <= n && n <= 0x0d) || n == 0x20 || n == 0x85 || n == 0xa0 || n == 0x1680 || (0x2000 <= n
        && n <= 0x200a) || n == 0x2028 || n == 0x2029 || n == 0x202f || n == 0x205f || n == 0x3000
}

/// The first `ch` is where a `ch` stands that none precedes.
proof fn lemma_first_index_of(s: Seq<char>, ch: char, j: int)
    requires
        0 <= j <= s.len(),
        forall|k: int| 0 <= k < j ==> s[k] != ch,
        j < s.len() ==> s[j] == ch,
    ensures
        first_index_of(s, ch) == j,
    decreases j,
{
    if j > 0 {
        lemma_first_index_of(s.skip(1), ch, j - 1);
    }
}

/// The white space that `s` begins with ends where the first other character
/// stands.
proof fn lemma_trimmed_start(s: Seq<char>, a: int)
    requires
        0 <= a <= s.len(),
        forall|k: int| 0 <= k < a ==> is_space(s[k]),
        a < s.len() ==> !is_space(s[a]),
    ensures
        trimmed_start(s) == s.skip(a),
    decreases a,
{
    if a > 0 {
        lemma_trimmed_start(s.skip(1), a - 1);
    }
}

/// The white space that `s` ends with begins after the last other character.
proof fn lemma_trimmed_end(s: Seq<char>, b: int)
    requires
        0 <= b <= s.len(),
        forall|k: int| b <= k < s.len() ==> is_space(s[k]),
        b > 0 ==> !is_space(s[b - 1]),
    ensures
        trimmed_end(s) == s.take(b),
    decreases s.len() - b,
{
    if b < s.len() {
        lemma_trimmed_end(s.drop_last(), b);
    }
}

/// The position of the first `ch` among the characters from `from` up to `to`, or
/// `to` where there is none.
fn find_char(text: &Vec<char>, from: usize, to: usize, ch: char) -> (j: usize)
    requires
        from <= to <= text@.len(),
    ensures
        from <= j <= to,
        first_index_of(text@.subrange(from as int, to as int), ch) == j - from,
        j < to ==> text@[j as int] == ch,
{
    let mut j = from;
    while j < to && text[j] != ch
        invariant
            from <= j <= to <= text@.len(),
            forall|k: int| from <= k < j ==> text@[k] != ch,
        decreases to - j,
    {
        j += 1;
    }
    proof {
        lemma_first_index_of(text@.subrange(from as int, to as int), ch, j - from);
    }
    j
}

/// The bounds of what is left of the characters from `from` up to `to` once the
/// white space around them is taken away.
fn trim_range(text: &Vec<char>, from: usize, to: usize) -> (bounds: (usize, usize))
    requires
        from <= to <= text@.len(),
    ensures
        from <= bounds.0 <= bounds.1 <= to,
        text@.subrange(bounds.0 as int, bounds.1 as int) == trimmed(
            text@.subrange(from as int, to as int),
        ),
{
    let mut a = from;
    while a < to && is_space_char(text[a])
        invariant
            from <= a <= to <= text@.len(),
            forall|k: int| from <= k < a ==> is_space(text@[k]),
        decreases to - a,
    {
        a += 1;
    }
    let mut b = to;
    while b > a && is_space_char(text[b - 1])
        invariant
            a <= b <= to <= text@.len(),
            forall|k: int| b <= k < to ==> is_space(text@[k]),
        decreases b - a,
    {
        b -= 1;
    }
    proof {
        let whole = text@.subrange(from as int, to as int);
        lemma_trimmed_start(whole, a - from);
        let rest = whole.skip(a - from);
        lemma_trimmed_end(rest, b - a);
    }
    (a, b)
}

/// The fields of the line made of the characters from `from` up to `to`.
fn split_fields(content: &str, text: &Vec<char>, from: usize, to: usize) -> (fields: Vec<String>)
    requires
        text@ == content@,
        from <= to <= text@.len(),
    ensures
        Seq::new(fields@.len(), |i: int| fields@[i]@) == fields_of(
            text@.subrange(from as int, to as int),
        ),
{
    let ghost line = text@.subrange(from as int, to as int);
    let mut fields: Vec<String> = Vec::new();
    let ghost mut pieces: Seq<Seq<char>> = Seq::empty();
    let mut pos = from;
    loop
        invariant_except_break
            split_on(line, ',') == pieces + split_on(text@.subrange(pos as int, to as int), ','),
        invariant
            text@ == content@,
            from <= pos <= to <= text@.len(),
            line == text@.subrange(from as int, to as int),
            fields@.len() == pieces.len(),
            forall|i: int| 0 <= i < pieces.len() ==> (#[trigger] fields@[i])@ == trimmed(pieces[i]),
        ensures
            fields@.len() == split_on(line, ',').len(),
            forall|i: int|
                0 <= i < fields@.len() ==> (#[trigger] fields@[i])@ == trimmed(
                    split_on(line, ',')[i],
                ),
        decreases to - pos,
    {
        let end = find_char(text, pos, to, ',');
        let (a, b) = trim_range(text, pos, end);
        let field = content.substring_char(a, b).to_owned();
        let ghost rest = text@.subrange(pos as int, to as int);
        let ghost piece = text@.subrange(pos as int, end as int);
        proof {
            assert(rest.take(end - pos) == piece);
        }
        fields.push(field);
        if end == to {
            proof {
                pieces = pieces.push(piece);
            }
            break;
        }
        proof {
            assert(rest.skip(end - pos + 1) == text@.subrange(end + 1, to as int));
            pieces = pieces.push(piece);
        }
        pos = end + 1;
    }
    fields
}

/// The number that `field` denotes, as `T` reads it.
pub(crate) fn number_of<T: Scalar>(field: &String) -> (number: Option<T>)
    ensures
        parse_answers(field@, number),
{
    T::parse(field.as_str())
}

/// The records of `text`, each with the number of lines before it and its fields.
pub open spec fn text_records(text: Seq<char>) -> Seq<(int, Seq<Seq<char>>)> {
    records_of(lines_of(text))
}

/// `records` are the records of `text`: one for each line that is no comment, in
/// order, with the number of lines before it and its fields.
pub open spec fn is_records_of(text: Seq<char>, records: Seq<Record>) -> bool {
    let expected = records_of(lines_of(text));
    &&& records.len() == expected.len()
    &&& forall|i: int|
        0 <= i < records.len() ==> (#[trigger] records[i]).line == expected[i].0
            && records[i].field_views() == expected[i].1
}

/// Reads the records of a delimited text: its lines, but for those that begin
/// with `#`, each split at its commas into fields without the white space around
/// them.
pub fn read_records(content: &str) -> (records: Vec<Record>)
    ensures
        is_records_of(content@, records@),
{
    let text = characters(content);
    let total = text.len();
    let mut records: Vec<Record> = Vec::new();
    let ghost mut lines: Seq<Seq<char>> = Seq::empty();
    let mut line_number: usize = 0;
    let mut pos: usize = 0;
    proof {
        assert(text@.subrange(0, total as int) == text@);
    }
    while pos < total
        invariant
            text@ == content@,
            total == text@.len(),
            pos <= total,
            line_number == lines.len(),
            line_number <= pos,
            lines_of(text@) == lines + lines_of(text@.subrange(pos as int, total as int)),
            records@.len() == records_of(lines).len(),
            forall|i: int|
                0 <= i < records@.len() ==> (#[trigger] records@[i]).line == records_of(lines)[i].0
                    && records@[i].field_views() == records_of(lines)[i].1,
        decreases total - pos,
    {
        let end = find_char(&text, pos, total, '\n');
        let ghost rest = text@.subrange(pos as int, total as int);
        let mut line_end = end;
        if end < total && end > pos && text[end - 1] == '\r' {
            line_end = end - 1;
        }
        let ghost line = text@.subrange(pos as int, line_end as int);
        proof {
            assert(rest.take(end - pos) == text@.subrange(pos as int, end as int));
            if end < total {
                assert(rest.skip(end - pos + 1) == text@.subrange(end + 1, total as int));
                assert(line == without_carriage_return(text@.subrange(pos as int, end as int)));
            }
            assert(lines.push(line).drop_last() == lines);
        }
        let comment = line_end > pos && text[pos] == '#';
        if !comment {
            let fields = split_fields(content, &text, pos, line_end);
            records.push(Record { line: line_number, fields });
        }
        proof {
            lines = lines.push(line);
        }
        line_number += 1;
        pos = if end < total {
            end + 1
        } else {
            total
        };
    }
    records
}

} // verus!
