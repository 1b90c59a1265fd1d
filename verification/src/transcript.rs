//! The form WhatsApp gives copied conversation: when a selection runs
//! across several messages, each line carries the clock, the date, and who
//! wrote it, like `[22:41, 8/18/2026] Ada: the analyzer is crazy good`.
//!
//! Every message body drawn in a frame is remembered with its header, and
//! when the copied text turns out to walk across more than one of those
//! bodies, it is rebuilt with the headers in. Offsets into a body count
//! characters.

use vstd::prelude::*;

use crate::emoji::{placeholder_count, PLACEHOLDER};
use crate::text::{
    chars_of, copy_chars, extend_chars, from_chars, has_prefix, slice_skip, starts_with,
};

verus! {

/// One message body as drawn: the header to write before it, the text
/// selection sees, and the emoji behind the body's placeholder glyphs (the
/// galley holds `emoji::PLACEHOLDER` where a colour emoji is painted, and a
/// copy must put the emoji themselves back).
#[derive(Clone, Debug, Default)]
pub struct Row {
    pub header: String,
    pub body: String,
    pub placements: Vec<String>,
    /// What kind of message this is, when it is not plain text:
    /// "\[photo\]", "\[video\]", "\[document: notes.pdf\]", and so on.
    pub marker: Option<String>,
    /// The reactions on the message, preformatted: " (❤️ Roberta)".
    pub reactions: String,
    /// What the message replied to, preformatted:
    /// `(replying to Roberta: "…")`.
    pub quote: Option<String>,
}

// ---------------------------------------------------------------------
// The meaning of a copy, over character sequences.

/// The emoji a row's placeholders stand for.
pub open spec fn placements_of(row: Row) -> Seq<Seq<char>> {
    row.placements@.map_values(|p: String| p@)
}

/// `segment` with each placeholder replaced by the emoji it stands for,
/// the first of them being the `next`-th of `placements`; a placeholder
/// past the end of the list stays as it is.
pub open spec fn replaced(placements: Seq<Seq<char>>, next: nat, segment: Seq<char>) -> Seq<char>
    decreases segment.len(),
{
    if segment.len() == 0 {
        Seq::empty()
    } else if segment[0] == PLACEHOLDER {
        let head = if next < placements.len() { placements[next as int] } else { seq![PLACEHOLDER] };
        head + replaced(placements, next + 1, segment.drop_first())
    } else {
        seq![segment[0]] + replaced(placements, next, segment.drop_first())
    }
}

/// The stretch `segment` of a row's body that starts at character `start`,
/// with every placeholder replaced by the emoji it stood for.
pub open spec fn restored_text(row: Row, start: int, segment: Seq<char>) -> Seq<char> {
    if row.placements@.len() == 0 {
        segment
    } else {
        replaced(placements_of(row), placeholder_count(row.body@.take(start)), segment)
    }
}

/// One transcript line: the header, the reply context, the kind, the
/// selected text, and the reactions.
pub open spec fn line_text(row: Row, body: Seq<char>) -> Seq<char> {
    let quote = match row.quote {
        Some(q) => q@ + seq![' '],
        None => Seq::empty(),
    };
    let marker = match row.marker {
        Some(m) => if body.len() > 0 { m@ + seq![' '] } else { m@ },
        None => Seq::empty(),
    };
    row.header@ + quote + marker + body + row.reactions@
}

/// A copy read as a tail of the first row's body from character `cut` on
/// (or later), followed by later rows: one line per row touched.
pub open spec fn walk_from(copied: Seq<char>, rows: Seq<Row>, cut: int) -> Option<Seq<Seq<char>>>
    decreases rows.len(), 2int, rows[0].body@.len() - cut,
{
    if rows.len() == 0 || cut < 0 || cut >= rows[0].body@.len() {
        None
    } else {
        let row = rows[0];
        let part = row.body@.skip(cut);
        if has_prefix(copied, part) {
            let rest = copied.skip(part.len() as int);
            let line = line_text(row, restored_text(row, cut, part));
            if rest.len() == 0 {
                Some(seq![line])
            } else {
                match follow_text(rest, rows.drop_first()) {
                    Some(tail) => Some(seq![line] + tail),
                    None => walk_from(copied, rows, cut + 1),
                }
            }
        } else {
            walk_from(copied, rows, cut + 1)
        }
    }
}

/// After a separator of one or two line feeds, the next contribution is a
/// whole body, or a head of one that uses the rest up; a row without text
/// that has a marker was swept over and gets a line of its own.
pub open spec fn follow_text(copied: Seq<char>, rows: Seq<Row>) -> Option<Seq<Seq<char>>>
    decreases rows.len(), 1int, 0int,
{
    let remaining = if has_prefix(copied, seq!['\n', '\n']) {
        Some(copied.skip(2))
    } else if has_prefix(copied, seq!['\n']) {
        Some(copied.skip(1))
    } else {
        None
    };
    match remaining {
        None => None,
        Some(remaining) => if remaining.len() == 0 {
            None
        } else {
            follow_rows(remaining, rows, 0, Seq::empty())
        },
    }
}

/// The search of `follow_text` from the `k`-th row on, with the lines of
/// the rows swept over so far.
pub open spec fn follow_rows(
    remaining: Seq<char>,
    rows: Seq<Row>,
    k: int,
    passed: Seq<Seq<char>>,
) -> Option<Seq<Seq<char>>>
    decreases rows.len(), 0int, rows.len() - k,
{
    if k < 0 || k >= rows.len() {
        None
    } else {
        let row = rows[k];
        let body = row.body@;
        if body.len() == 0 {
            let passed = if row.marker is Some {
                passed.push(line_text(row, Seq::empty()))
            } else {
                passed
            };
            follow_rows(remaining, rows, k + 1, passed)
        } else if has_prefix(body, remaining) {
            Some(passed.push(line_text(row, restored_text(row, 0, remaining))))
        } else if has_prefix(remaining, body) {
            match follow_text(remaining.skip(body.len() as int), rows.skip(k + 1)) {
                Some(tail) => Some(passed.push(line_text(row, restored_text(row, 0, body))) + tail),
                None => follow_rows(remaining, rows, k + 1, passed),
            }
        } else {
            follow_rows(remaining, rows, k + 1, passed)
        }
    }
}

/// Lines joined with line feeds.
pub open spec fn joined(lines: Seq<Seq<char>>) -> Seq<char>
    decreases lines.len(),
{
    if lines.len() == 0 {
        Seq::empty()
    } else if lines.len() == 1 {
        lines[0]
    } else {
        joined(lines.drop_last()) + seq!['\n'] + lines.last()
    }
}

/// The annotation of a copy that spans rows, trying each row from `start`
/// on as the one the selection began in.
pub open spec fn annotate_from(copied: Seq<char>, rows: Seq<Row>, start: int) -> Option<Seq<char>>
    decreases rows.len() - start,
{
    if start < 0 || start >= rows.len() {
        None
    } else {
        match walk_from(copied, rows.skip(start), 0) {
            Some(lines) if lines.len() >= 2 => Some(joined(lines)),
            _ => annotate_from(copied, rows, start + 1),
        }
    }
}

/// The copied text rebuilt with a header per message, when it spans more
/// than one of `rows`.
pub open spec fn annotated(copied: Seq<char>, rows: Seq<Row>) -> Option<Seq<char>> {
    annotate_from(copied, rows, 0)
}

/// The first character offset at or after `from` where `needle` occurs in
/// `hay`.
pub open spec fn occurrence_from(hay: Seq<char>, needle: Seq<char>, from: int) -> Option<int>
    decreases hay.len() + 1 - from,
{
    if from < 0 || from + needle.len() > hay.len() {
        None
    } else if hay.subrange(from, from + needle.len()) == needle {
        Some(from)
    } else {
        occurrence_from(hay, needle, from + 1)
    }
}

/// A copy from within one row, from the `i`-th on: the first row whose body
/// holds it gives its emoji back.
pub open spec fn restore_within(copied: Seq<char>, rows: Seq<Row>, i: int) -> Option<Seq<char>>
    decreases rows.len() - i,
{
    if i < 0 || i >= rows.len() {
        None
    } else {
        match occurrence_from(rows[i].body@, copied, 0) {
            Some(start) => Some(restored_text(rows[i], start, copied)),
            None => restore_within(copied, rows, i + 1),
        }
    }
}

/// What a copy becomes: headers put on when it spans messages, and the
/// emoji restored either way; `None` when nothing needs doing.
pub open spec fn refined(copied: Seq<char>, rows: Seq<Row>) -> Option<Seq<char>> {
    match annotated(copied, rows) {
        Some(text) => Some(text),
        None => if !copied.contains(PLACEHOLDER) {
            None
        } else {
            restore_within(copied, rows, 0)
        },
    }
}

// ---------------------------------------------------------------------
// The rebuilding itself.

/// The lines of a transcript, as character sequences.
pub open spec fn lines_view(lines: Seq<Vec<char>>) -> Seq<Seq<char>> {
    lines.map_values(|line: Vec<char>| line@)
}

proof fn lemma_replaced_beyond(placements: Seq<Seq<char>>, n1: nat, n2: nat, segment: Seq<char>)
    requires
        n1 >= placements.len(),
        n2 >= placements.len(),
    ensures
        replaced(placements, n1, segment) == replaced(placements, n2, segment),
    decreases segment.len(),
{
    if segment.len() > 0 {
        lemma_replaced_beyond(placements, n1 + 1, n2 + 1, segment.drop_first());
        lemma_replaced_beyond(placements, n1, n2, segment.drop_first());
    }
}

proof fn lemma_replaced_step(placements: Seq<Seq<char>>, next: nat, segment: Seq<char>, i: int)
    requires
        0 <= i < segment.len(),
    ensures
        replaced(placements, next, segment.skip(i)) == (if segment[i] == PLACEHOLDER {
            (if next < placements.len() { placements[next as int] } else { seq![PLACEHOLDER] })
                + replaced(placements, next + 1, segment.skip(i + 1))
        } else {
            seq![segment[i]] + replaced(placements, next, segment.skip(i + 1))
        }),
{
    assert(segment.skip(i)[0] == segment[i]);
    assert(segment.skip(i).drop_first() =~= segment.skip(i + 1));
}

/// The number of placeholders among the first `end` characters.
fn count_placeholders(s: &[char], end: usize) -> (r: usize)
    requires
        end <= s@.len(),
    ensures
        r == placeholder_count(s@.take(end as int)),
        r <= end,
{
    let mut count: usize = 0;
    let mut i: usize = 0;
    while i < end
        invariant
            i <= end <= s@.len(),
            count == placeholder_count(s@.take(i as int)),
            count <= i,
        decreases end - i,
    {
        assert(s@.take(i + 1).drop_last() =~= s@.take(i as int));
        if s[i] == PLACEHOLDER {
            count = count + 1;
        }
        i = i + 1;
    }
    count
}

impl Row {
    /// The stretch `segment` of this row's body starting at character
    /// `start` of `body` (the body's characters), with the emoji put back.
    fn restored_chars(&self, body: &[char], start: usize, segment: &[char]) -> (r: Vec<char>)
        requires
            body@ == self.body@,
            start <= body@.len(),
        ensures
            r@ == restored_text(*self, start as int, segment@),
    {
        if self.placements.len() == 0 {
            return copy_chars(segment);
        }
        let ghost placements = placements_of(*self);
        let ghost first = placeholder_count(body@.take(start as int));
        let mut next = count_placeholders(body, start);
        let mut out: Vec<char> = Vec::new();
        let mut i: usize = 0;
        assert(segment@.skip(0) =~= segment@);
        assert(out@ + replaced(placements, first, segment@) =~= replaced(placements, first, segment@));
        while i < segment.len()
            invariant
                placements == placements_of(*self),
                placements.len() == self.placements@.len(),
                i <= segment@.len(),
                out@ + replaced(placements, next as nat, segment@.skip(i as int)) == replaced(
                    placements,
                    first,
                    segment@,
                ),
            decreases segment@.len() - i,
        {
            proof {
                lemma_replaced_step(placements, next as nat, segment@, i as int);
            }
            let c = segment[i];
            let ghost before = out@;
            if c == PLACEHOLDER {
                if next < self.placements.len() {
                    let emoji = chars_of(self.placements[next].as_str());
                    assert(placements[next as int] == self.placements@[next as int]@);
                    extend_chars(&mut out, emoji.as_slice());
                } else {
                    out.push(c);
                    assert(out@ =~= before + seq![PLACEHOLDER]);
                }
                if next < usize::MAX {
                    next = next + 1;
                } else {
                    proof {
                        lemma_replaced_beyond(
                            placements,
                            next as nat,
                            next as nat + 1,
                            segment@.skip(i + 1),
                        );
                    }
                }
            } else {
                out.push(c);
                assert(out@ =~= before + seq![c]);
            }
            assert(segment@.skip(i as int).len() > 0);
            i = i + 1;
            assert(out@ + replaced(placements, next as nat, segment@.skip(i as int)) =~= replaced(
                placements,
                first,
                segment@,
            ));
        }
        assert(segment@.skip(i as int) =~= Seq::<char>::empty());
        assert(out@ + Seq::<char>::empty() =~= out@);
        out
    }

    /// One transcript line for this row around `body`.
    fn line_chars(&self, body: &[char]) -> (r: Vec<char>)
        ensures
            r@ == line_text(*self, body@),
    {
        let mut out = chars_of(self.header.as_str());
        match &self.quote {
            Some(quote) => {
                let q = chars_of(quote.as_str());
                extend_chars(&mut out, q.as_slice());
                out.push(' ');
            },
            None => {},
        }
        match &self.marker {
            Some(marker) => {
                let m = chars_of(marker.as_str());
                extend_chars(&mut out, m.as_slice());
                if body.len() > 0 {
                    out.push(' ');
                }
            },
            None => {},
        }
        extend_chars(&mut out, body);
        let reactions = chars_of(self.reactions.as_str());
        extend_chars(&mut out, reactions.as_slice());
        proof {
            let quote: Seq<char> = if self.quote is Some {
                self.quote->0@ + seq![' ']
            } else {
                Seq::empty()
            };
            let marker: Seq<char> = if self.marker is Some {
                if body@.len() > 0 { self.marker->0@ + seq![' '] } else { self.marker->0@ }
            } else {
                Seq::empty()
            };
            assert(out@ =~= self.header@ + quote + marker + body@ + self.reactions@);
        }
        out
    }

    /// One transcript line: the header, the reply context, the kind, the
    /// selected text, and the reactions.
    pub fn line(&self, body: &str) -> (r: String)
        ensures
            r@ == line_text(*self, body@),
    {
        let chars = chars_of(body);
        let line = self.line_chars(chars.as_slice());
        from_chars(line.as_slice())
    }

    /// The stretch of this row's body from character `start`, with every
    /// placeholder replaced by the emoji it stood for.
    pub fn restored(&self, start: usize, segment: &str) -> (r: String)
        requires
            self.placements@.len() > 0 ==> start <= self.body@.len(),
        ensures
            r@ == restored_text(*self, start as int, segment@),
    {
        if self.placements.len() == 0 {
            return String::from_str(segment);
        }
        let body = chars_of(self.body.as_str());
        let chars = chars_of(segment);
        let out = self.restored_chars(body.as_slice(), start, chars.as_slice());
        from_chars(out.as_slice())
    }
}

fn single(line: Vec<char>) -> (r: Vec<Vec<char>>)
    ensures
        lines_view(r@) == seq![line@],
{
    let mut v: Vec<Vec<char>> = Vec::new();
    v.push(line);
    assert(lines_view(v@) =~= seq![line@]);
    v
}

fn prepend(line: Vec<char>, tail: Vec<Vec<char>>) -> (r: Vec<Vec<char>>)
    ensures
        lines_view(r@) == seq![line@] + lines_view(tail@),
{
    let ghost tv = tail@;
    let mut tail = tail;
    tail.insert(0, line);
    assert(lines_view(tail@) =~= seq![line@] + lines_view(tv));
    tail
}

fn push_line(passed: &mut Vec<Vec<char>>, line: Vec<char>)
    ensures
        lines_view(final(passed)@) == lines_view(old(passed)@).push(line@),
{
    passed.push(line);
    assert(lines_view(passed@) =~= lines_view(old(passed)@).push(line@));
}

fn append_lines(passed: &mut Vec<Vec<char>>, tail: Vec<Vec<char>>)
    ensures
        lines_view(final(passed)@) == lines_view(old(passed)@) + lines_view(tail@),
{
    let ghost tv = tail@;
    let mut tail = tail;
    passed.append(&mut tail);
    assert(lines_view(passed@) =~= lines_view(old(passed)@) + lines_view(tv));
}

/// Tries to read `copied` as a tail of the body of `rows[from]` followed by
/// later rows; answers with one annotated line per row touched.
fn walk(copied: &[char], rows: &[Row], from: usize) -> (r: Option<Vec<Vec<char>>>)
    requires
        from <= rows@.len(),
    ensures
        r matches Some(v) ==> walk_from(copied@, rows@.skip(from as int), 0) == Some(
            lines_view(v@),
        ),
        r is None ==> walk_from(copied@, rows@.skip(from as int), 0) is None,
{
    let ghost rs = rows@.skip(from as int);
    if from >= rows.len() {
        return None;
    }
    let row = &rows[from];
    assert(rs[0] == rows@[from as int]);
    let body = chars_of(row.body.as_str());
    let mut cut: usize = 0;
    while cut < body.len()
        invariant
            rs == rows@.skip(from as int),
            from < rows@.len(),
            rows@.len() == rows.len(),
            *row == rs[0],
            body@ == row.body@,
            cut <= body@.len(),
            walk_from(copied@, rs, 0) == walk_from(copied@, rs, cut as int),
        decreases body@.len() - cut,
    {
        let part = slice_skip(body.as_slice(), cut);
        if starts_with(copied, part) {
            let rest = slice_skip(copied, part.len());
            let segment = row.restored_chars(body.as_slice(), cut, part);
            let line = row.line_chars(segment.as_slice());
            if rest.len() == 0 {
                return Some(single(line));
            }
            assert(rs.drop_first() =~= rows@.skip(from + 1));
            match follow(rest, rows, from + 1) {
                Some(tail) => {
                    return Some(prepend(line, tail));
                },
                None => {},
            }
        }
        cut = cut + 1;
    }
    None
}

/// After a separator, the next contribution is a whole body, or a head of
/// one that uses the rest up. A message with no text between two that
/// contribute was swept over too: its kind is said on a line of its own.
fn follow(copied: &[char], rows: &[Row], from: usize) -> (r: Option<Vec<Vec<char>>>)
    requires
        from <= rows@.len(),
    ensures
        r matches Some(v) ==> follow_text(copied@, rows@.skip(from as int)) == Some(
            lines_view(v@),
        ),
        r is None ==> follow_text(copied@, rows@.skip(from as int)) is None,
    decreases rows@.len() - from,
{
    let ghost rs = rows@.skip(from as int);
    let remaining: &[char] = if copied.len() >= 2 && copied[0] == '\n' && copied[1] == '\n' {
        assert(copied@.take(2) =~= seq!['\n', '\n']);
        slice_skip(copied, 2)
    } else if copied.len() >= 1 && copied[0] == '\n' {
        assert(copied@.take(1) =~= seq!['\n']);
        proof {
            if copied@.len() >= 2 {
                assert(copied@.take(2)[1] == copied@[1]);
            }
        }
        assert(!has_prefix(copied@, seq!['\n', '\n']));
        slice_skip(copied, 1)
    } else {
        proof {
            if copied@.len() >= 2 {
                assert(copied@.take(2)[0] == copied@[0]);
            }
            if copied@.len() >= 1 {
                assert(copied@.take(1)[0] == copied@[0]);
            }
        }
        assert(!has_prefix(copied@, seq!['\n', '\n']));
        assert(!has_prefix(copied@, seq!['\n']));
        return None;
    };
    if remaining.len() == 0 {
        return None;
    }
    let mut passed: Vec<Vec<char>> = Vec::new();
    assert(lines_view(passed@) =~= Seq::<Seq<char>>::empty());
    let mut k: usize = from;
    while k < rows.len()
        invariant
            rs == rows@.skip(from as int),
            from <= k <= rows@.len(),
            remaining@.len() > 0,
            follow_text(copied@, rs) == follow_rows(
                remaining@,
                rs,
                k - from,
                lines_view(passed@),
            ),
        decreases rows@.len() - k,
    {
        let row = &rows[k];
        assert(rs[k - from] == rows@[k as int]);
        let body = chars_of(row.body.as_str());
        if body.len() == 0 {
            if row.marker.is_some() {
                let line = row.line_chars(body.as_slice());
                push_line(&mut passed, line);
            }
        } else if starts_with(body.as_slice(), remaining) {
            let segment = row.restored_chars(body.as_slice(), 0, remaining);
            let line = row.line_chars(segment.as_slice());
            push_line(&mut passed, line);
            return Some(passed);
        } else if starts_with(remaining, body.as_slice()) {
            let rest = slice_skip(remaining, body.len());
            assert(rs.skip(k - from + 1) =~= rows@.skip(k + 1));
            match follow(rest, rows, k + 1) {
                Some(tail) => {
                    let segment = row.restored_chars(body.as_slice(), 0, body.as_slice());
                    let line = row.line_chars(segment.as_slice());
                    push_line(&mut passed, line);
                    append_lines(&mut passed, tail);
                    return Some(passed);
                },
                None => {},
            }
        }
        k = k + 1;
    }
    None
}

/// Lines joined with line feeds.
fn join_lines(lines: &Vec<Vec<char>>) -> (r: Vec<char>)
    ensures
        r@ == joined(lines_view(lines@)),
{
    let ghost all = lines_view(lines@);
    if lines.len() == 0 {
        return Vec::new();
    }
    let mut out = copy_chars(lines[0].as_slice());
    assert(all.take(1) =~= seq![all[0]]);
    let mut i: usize = 1;
    while i < lines.len()
        invariant
            all == lines_view(lines@),
            1 <= i <= lines@.len(),
            out@ == joined(all.take(i as int)),
        decreases lines@.len() - i,
    {
        out.push('\n');
        extend_chars(&mut out, lines[i].as_slice());
        assert(all.take(i + 1).drop_last() =~= all.take(i as int));
        assert(all.take(i + 1).last() == lines@[i as int]@);
        i = i + 1;
    }
    assert(all.take(lines@.len() as int) =~= all);
    out
}

/// Rebuilds copied text with a header per message, when it spans more than
/// one of `rows`; anything else is left as it is (`None`).
///
/// A selection across messages takes a tail of the first body, whole bodies
/// in between (messages without text contribute nothing), and a head of the
/// last; egui joins bodies with one blank line or none.
pub fn annotate(copied: &str, rows: &[Row]) -> (r: Option<String>)
    ensures
        r matches Some(text) ==> annotated(copied@, rows@) == Some(text@),
        r is None ==> annotated(copied@, rows@) is None,
{
    let chars = chars_of(copied);
    match annotate_chars(chars.as_slice(), rows) {
        Some(text) => Some(from_chars(text.as_slice())),
        None => None,
    }
}

fn annotate_chars(copied: &[char], rows: &[Row]) -> (r: Option<Vec<char>>)
    ensures
        r matches Some(text) ==> annotated(copied@, rows@) == Some(text@),
        r is None ==> annotated(copied@, rows@) is None,
{
    let mut start: usize = 0;
    while start < rows.len()
        invariant
            start <= rows@.len(),
            annotated(copied@, rows@) == annotate_from(copied@, rows@, start as int),
        decreases rows@.len() - start,
    {
        match walk(copied, rows, start) {
            Some(lines) => {
                if lines.len() >= 2 {
                    return Some(join_lines(&lines));
                }
            },
            None => {},
        }
        start = start + 1;
    }
    None
}

/// Whether some character is a placeholder.
fn has_placeholder(s: &[char]) -> (r: bool)
    ensures
        r == s@.contains(PLACEHOLDER),
{
    let mut i: usize = 0;
    while i < s.len()
        invariant
            i <= s@.len(),
            forall|j: int| 0 <= j < i ==> s@[j] != PLACEHOLDER,
        decreases s@.len() - i,
    {
        if s[i] == PLACEHOLDER {
            assert(s@[i as int] == PLACEHOLDER);
            return true;
        }
        i = i + 1;
    }
    false
}

/// Whether `needle` stands in `hay` at `at`.
fn occurs_at(hay: &[char], needle: &[char], at: usize) -> (r: bool)
    requires
        at + needle@.len() <= hay@.len(),
    ensures
        r == (hay@.subrange(at as int, at + needle@.len()) == needle@),
{
    let mut j: usize = 0;
    while j < needle.len()
        invariant
            at + needle@.len() <= hay@.len(),
            hay@.len() == hay.len(),
            j <= needle@.len(),
            forall|i: int| 0 <= i < j ==> hay@[at + i] == needle@[i],
        decreases needle@.len() - j,
    {
        if hay[at + j] != needle[j] {
            assert(hay@.subrange(at as int, at + needle@.len())[j as int] != needle@[j as int]);
            return false;
        }
        j = j + 1;
    }
    assert(hay@.subrange(at as int, at + needle@.len()) =~= needle@);
    true
}

/// The first character offset where `needle` occurs in `hay`.
fn find_chars(hay: &[char], needle: &[char]) -> (r: Option<usize>)
    ensures
        r matches Some(at) ==> occurrence_from(hay@, needle@, 0) == Some(at as int),
        r is None ==> occurrence_from(hay@, needle@, 0) is None,
        r matches Some(at) ==> at <= hay@.len(),
{
    if needle.len() > hay.len() {
        return None;
    }
    if needle.len() == 0 {
        assert(hay@.subrange(0, 0) =~= needle@);
        return Some(0);
    }
    let mut at: usize = 0;
    while at <= hay.len() - needle.len()
        invariant
            1 <= needle@.len() <= hay@.len(),
            at <= hay@.len() - needle@.len() + 1,
            occurrence_from(hay@, needle@, 0) == occurrence_from(hay@, needle@, at as int),
        decreases hay@.len() + 1 - at,
    {
        if occurs_at(hay, needle, at) {
            return Some(at);
        }
        at = at + 1;
    }
    None
}

/// What a copy needs done: headers put on when it spans messages, and the
/// emoji restored either way. `None` when the text is not from the
/// conversation (a field's copy, say) or needs nothing.
pub fn refine(copied: &str, rows: &[Row]) -> (r: Option<String>)
    ensures
        r matches Some(text) ==> refined(copied@, rows@) == Some(text@),
        r is None ==> refined(copied@, rows@) is None,
{
    let chars = chars_of(copied);
    if let Some(text) = annotate_chars(chars.as_slice(), rows) {
        return Some(from_chars(text.as_slice()));
    }
    // Within one message: no header, but the emoji come back.
    if !has_placeholder(chars.as_slice()) {
        return None;
    }
    let mut i: usize = 0;
    while i < rows.len()
        invariant
            i <= rows@.len(),
            chars@ == copied@,
            annotated(copied@, rows@) is None,
            copied@.contains(PLACEHOLDER),
            refined(copied@, rows@) == restore_within(copied@, rows@, i as int),
        decreases rows@.len() - i,
    {
        let row = &rows[i];
        let body = chars_of(row.body.as_str());
        match find_chars(body.as_slice(), chars.as_slice()) {
            Some(start) => {
                let out = row.restored_chars(body.as_slice(), start, chars.as_slice());
                return Some(from_chars(out.as_slice()));
            },
            None => {},
        }
        i = i + 1;
    }
    None
}

/// What the clipboard receives for a copy from the conversation: the copy
/// refined when it needs it, else the copy as it is.
pub open spec fn clipboard_text(copied: Seq<char>, rows: Seq<Row>) -> Seq<char> {
    match refined(copied, rows) {
        Some(text) => text,
        None => copied,
    }
}

/// The text to put on the clipboard for a copy, given the message bodies
/// drawn this frame.
pub fn for_clipboard(copied: &str, rows: &[Row]) -> (r: String)
    ensures
        r@ == clipboard_text(copied@, rows@),
{
    match refine(copied, rows) {
        Some(text) => text,
        None => String::from_str(copied),
    }
}

// ---------------------------------------------------------------------
// What a copy keeps.

/// A copy without line feeds never takes in more than one row.
proof fn lemma_walk_one_line(copied: Seq<char>, rows: Seq<Row>, cut: int)
    requires
        !copied.contains('\n'),
    ensures
        walk_from(copied, rows, cut) matches Some(lines) ==> lines.len() == 1,
    decreases rows[0].body@.len() - cut,
{
    if rows.len() == 0 || cut < 0 || cut >= rows[0].body@.len() {
    } else {
        let part = rows[0].body@.skip(cut);
        if has_prefix(copied, part) {
            let rest = copied.skip(part.len() as int);
            if rest.len() != 0 {
                assert(rest[0] == copied[part.len() as int]);
                assert(!has_prefix(rest, seq!['\n', '\n'])) by {
                    if has_prefix(rest, seq!['\n', '\n']) {
                        assert(rest.take(2)[0] == '\n');
                        assert(copied.contains(rest[0]));
                    }
                }
                assert(!has_prefix(rest, seq!['\n'])) by {
                    if has_prefix(rest, seq!['\n']) {
                        assert(rest.take(1)[0] == '\n');
                        assert(copied.contains(rest[0]));
                    }
                }
                assert(follow_text(rest, rows.drop_first()) is None);
                lemma_walk_one_line(copied, rows, cut + 1);
            }
        } else {
            lemma_walk_one_line(copied, rows, cut + 1);
        }
    }
}

proof fn lemma_no_annotation(copied: Seq<char>, rows: Seq<Row>, start: int)
    requires
        !copied.contains('\n'),
    ensures
        annotate_from(copied, rows, start) is None,
    decreases rows.len() - start,
{
    if 0 <= start < rows.len() {
        lemma_walk_one_line(copied, rows.skip(start), 0);
        lemma_no_annotation(copied, rows, start + 1);
    }
}

/// A copy from within one line of a message, with no emoji in it, is left
/// as it is: there is nothing to refine.
pub proof fn a_copy_within_one_line_is_left_alone(copied: Seq<char>, rows: Seq<Row>)
    requires
        !copied.contains('\n'),
        !copied.contains(PLACEHOLDER),
    ensures
        refined(copied, rows) is None,
{
    lemma_no_annotation(copied, rows, 0);
}

proof fn lemma_restore_within(copied: Seq<char>, rows: Seq<Row>, i: int, k: int)
    requires
        0 <= i <= k <= rows.len(),
        forall|j: int| i <= j < k ==> (#[trigger] occurrence_from(rows[j].body@, copied, 0)) is None,
    ensures
        restore_within(copied, rows, i) == restore_within(copied, rows, k),
    decreases k - i,
{
    if i < k {
        lemma_restore_within(copied, rows, i + 1, k);
    }
}

/// A copy from within one message, which needs no headers, gets its emoji
/// back from the first row whose text holds it: each placeholder becomes
/// the emoji it stood for there, counted among all the placeholders of
/// that row; a copy no row holds is left as it is.
pub proof fn a_copy_within_a_message_gets_its_emoji_back(copied: Seq<char>, rows: Seq<Row>, k: int)
    requires
        annotated(copied, rows) is None,
        copied.contains(PLACEHOLDER),
        0 <= k <= rows.len(),
        forall|j: int| 0 <= j < k ==> (#[trigger] occurrence_from(rows[j].body@, copied, 0)) is None,
    ensures
        k < rows.len() ==> (occurrence_from(rows[k].body@, copied, 0) matches Some(start) ==> refined(
            copied,
            rows,
        ) == Some(restored_text(rows[k], start, copied))),
        k == rows.len() ==> refined(copied, rows) is None,
{
    lemma_restore_within(copied, rows, 0, k);
}

/// A copy that spans messages is given its headers, and that is what
/// refining it gives.
pub proof fn a_copy_across_messages_is_annotated(copied: Seq<char>, rows: Seq<Row>)
    requires
        annotated(copied, rows) is Some,
    ensures
        refined(copied, rows) == annotated(copied, rows),
{
}

/// Text without placeholders reads the same after the emoji are restored.
pub proof fn restoring_keeps_plain_text(row: Row, start: int, segment: Seq<char>)
    requires
        !segment.contains(PLACEHOLDER),
    ensures
        restored_text(row, start, segment) == segment,
{
    if row.placements@.len() != 0 {
        lemma_replaced_plain(placements_of(row), placeholder_count(row.body@.take(start)), segment);
    }
}

proof fn lemma_replaced_plain(placements: Seq<Seq<char>>, next: nat, segment: Seq<char>)
    requires
        !segment.contains(PLACEHOLDER),
    ensures
        replaced(placements, next, segment) == segment,
    decreases segment.len(),
{
    if segment.len() > 0 {
        assert(segment[0] != PLACEHOLDER) by {
            if segment[0] == PLACEHOLDER {
                assert(segment.contains(segment[0]));
            }
        }
        let rest = segment.drop_first();
        assert(!rest.contains(PLACEHOLDER)) by {
            if rest.contains(PLACEHOLDER) {
                let k = choose|k: int| 0 <= k < rest.len() && rest[k] == PLACEHOLDER;
                assert(segment[k + 1] == PLACEHOLDER);
            }
        }
        lemma_replaced_plain(placements, next, rest);
        assert(seq![segment[0]] + rest =~= segment);
    }
}

} // verus!
