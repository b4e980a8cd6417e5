use std::ops::Range;
use std::sync::Arc;
use vstd::prelude::*;
use vstd::string::*;

verus! {

/// The byte that ends a line.
pub const NEWLINE: u8 = 10;

/// The bytes of a shared source text.
pub open spec fn text_bytes(input: &Arc<String>) -> Seq<u8> {
    vstd::utf8::encode_utf8((**input)@)
}

/// Whether `byte` continues a character that an earlier byte began.
pub open spec fn is_continuation(byte: u8) -> bool {
    0x80 <= byte <= 0xBF
}

/// Whether `index` lies between two characters of `bytes`, at its start or at
/// its end.
pub open spec fn is_boundary(bytes: Seq<u8>, index: int) -> bool {
    0 <= index <= bytes.len() && (index == 0 || index == bytes.len() || !is_continuation(
        bytes[index],
    ))
}

/// The line that follows `bytes`, counted from 1: one more than the number
/// of line ends in `bytes`.
pub open spec fn line_of(bytes: Seq<u8>) -> nat
    decreases bytes.len(),
{
    if bytes.len() == 0 {
        1
    } else if bytes.last() == NEWLINE {
        line_of(bytes.drop_last()) + 1
    } else {
        line_of(bytes.drop_last())
    }
}

/// The column that follows `bytes`, counted from 1: one more than the number
/// of characters after the last line end in `bytes`.
pub open spec fn column_of(bytes: Seq<u8>) -> nat
    decreases bytes.len(),
{
    if bytes.len() == 0 {
        1
    } else if bytes.last() == NEWLINE {
        1
    } else if is_continuation(bytes.last()) {
        column_of(bytes.drop_last())
    } else {
        column_of(bytes.drop_last()) + 1
    }
}

/// The offset at which the line that holds offset `index` begins.
pub open spec fn line_start(bytes: Seq<u8>, index: int) -> int
    decreases index,
{
    if index <= 0 {
        0
    } else if bytes[index - 1] == NEWLINE {
        index
    } else {
        line_start(bytes, index - 1)
    }
}

/// The offset just behind the line that holds offset `index`, its line end
/// included.
pub open spec fn line_end(bytes: Seq<u8>, index: int) -> int
    decreases bytes.len() - index,
{
    if index >= bytes.len() {
        bytes.len() as int
    } else if index < 0 || bytes[index] == NEWLINE {
        index + 1
    } else {
        line_end(bytes, index + 1)
    }
}

/// The lines of `bytes` from the one that begins at `from` to the one that
/// holds offset `end`, each with its number, the first being `number`.
pub open spec fn lines_from(bytes: Seq<u8>, from: int, end: int, number: nat) -> Seq<
    (nat, Seq<u8>),
>
    decreases bytes.len() - from,
{
    if from < 0 || from >= bytes.len() || from > end || line_end(bytes, from) <= from
        || line_end(bytes, from) > bytes.len() {
        Seq::empty()
    } else {
        seq![(number, bytes.subrange(from, line_end(bytes, from)))] + lines_from(
            bytes,
            line_end(bytes, from),
            end,
            number + 1,
        )
    }
}

pub proof fn lemma_line_end_bounds(bytes: Seq<u8>, index: int)
    requires
        0 <= index,
    ensures
        index < bytes.len() ==> index < line_end(bytes, index) <= bytes.len(),
        index >= bytes.len() ==> line_end(bytes, index) == bytes.len(),
    decreases bytes.len() - index,
{
    if index < bytes.len() && bytes[index] != NEWLINE {
        lemma_line_end_bounds(bytes, index + 1);
    }
}

pub proof fn lemma_line_start_bounds(bytes: Seq<u8>, index: int)
    requires
        0 <= index,
    ensures
        0 <= line_start(bytes, index) <= index,
    decreases index,
{
    if index > 0 && bytes[index - 1] != NEWLINE {
        lemma_line_start_bounds(bytes, index - 1);
    }
}

/// The line number of an offset is that of the start of its line.
pub proof fn lemma_line_of_line_start(bytes: Seq<u8>, index: int)
    requires
        0 <= index <= bytes.len(),
    ensures
        line_of(bytes.take(index)) == line_of(bytes.take(line_start(bytes, index))),
    decreases index,
{
    if index > 0 && bytes[index - 1] != NEWLINE {
        lemma_line_of_line_start(bytes, index - 1);
        assert(bytes.take(index).drop_last() =~= bytes.take(index - 1));
    }
}

pub proof fn lemma_line_of_bound(bytes: Seq<u8>)
    ensures
        1 <= line_of(bytes) <= bytes.len() + 1,
        1 <= column_of(bytes) <= bytes.len() + 1,
    decreases bytes.len(),
{
    if bytes.len() > 0 {
        lemma_line_of_bound(bytes.drop_last());
    }
}

/// A line and a column, both counted from 1.
#[derive(Clone, Copy, Debug)]
pub struct Position {
    pub line: usize,
    pub column: usize,
}

impl Default for Position {
    fn default() -> (result: Position)
        ensures
            result.line == 1,
            result.column == 1,
    {
        Position { line: 1, column: 1 }
    }
}

impl Position {
    /// The position that follows `bytes`.
    pub fn from_bytes(bytes: &[u8]) -> (result: Position)
        requires
            bytes@.len() < usize::MAX,
        ensures
            result.line == line_of(bytes@),
            result.column == column_of(bytes@),
    {
        let mut line: usize = 1;
        let mut column: usize = 1;
        let mut index: usize = 0;
        while index < bytes.len()
            invariant
                index <= bytes@.len() < usize::MAX,
                line == line_of(bytes@.take(index as int)),
                column == column_of(bytes@.take(index as int)),
            decreases bytes@.len() - index,
        {
            proof {
                assert(bytes@.take(index + 1).drop_last() =~= bytes@.take(index as int));
                lemma_line_of_bound(bytes@.take(index + 1));
            }
            let byte = bytes[index];
            if byte == NEWLINE {
                line += 1;
                column = 1;
            } else if !(0x80 <= byte && byte <= 0xBF) {
                column += 1;
            }
            index += 1;
        }
        proof {
            assert(bytes@.take(index as int) =~= bytes@);
        }
        Position { line, column }
    }

    /// The position that follows the text `slice`: each line end begins a
    /// new line at column 1, every other character advances the column.
    pub fn from_str(slice: &str) -> (result: Position)
        requires
            slice.spec_bytes().len() < usize::MAX,
        ensures
            result.line == line_of(slice.spec_bytes()),
            result.column == column_of(slice.spec_bytes()),
    {
        Position::from_bytes(slice.as_bytes())
    }

    pub fn line(&self) -> (result: usize)
        ensures
            result == self.line,
    {
        self.line
    }

    pub fn column(&self) -> (result: usize)
        ensures
            result == self.column,
    {
        self.column
    }
}

/// `Arc::clone`: another handle to the same shared text, which is not
/// copied.
#[verifier::external_body]
pub(crate) fn share(input: &Arc<String>) -> (result: Arc<String>)
    ensures
        result == *input,
{
    Arc::clone(input)
}

/// Whether `index` is a boundary of `bytes`.
pub fn check_boundary(bytes: &[u8], index: usize) -> (result: bool)
    ensures
        result == is_boundary(bytes@, index as int),
{
    if index == 0 || index == bytes.len() {
        true
    } else if index > bytes.len() {
        false
    } else {
        let byte = bytes[index];
        !(0x80 <= byte && byte <= 0xBF)
    }
}

/// A valid offset into a source text.
#[derive(Clone)]
pub struct Cursor {
    pub input: Arc<String>,
    pub index: usize,
}

impl Cursor {
    pub open spec fn bytes(&self) -> Seq<u8> {
        text_bytes(&self.input)
    }

    /// The offset is a boundary of the text, and lines of the text can be
    /// counted.
    pub open spec fn wf(&self) -> bool {
        is_boundary(self.bytes(), self.index as int) && self.bytes().len() < usize::MAX
    }

    /// A cursor at `index` in `input`, or `None` where `index` is beyond the
    /// text or inside a character.
    pub fn try_new(input: &Arc<String>, index: usize) -> (result: Option<Cursor>)
        ensures
            result is Some <==> is_boundary(text_bytes(input), index as int) && text_bytes(
                input,
            ).len() < usize::MAX,
            result matches Some(cursor) ==> cursor.wf() && cursor.index == index && cursor.input
                == *input,
    {
        let bytes = input.as_str().as_bytes();
        if bytes.len() < usize::MAX && check_boundary(bytes, index) {
            Some(Cursor { input: share(input), index })
        } else {
            None
        }
    }

    /// The line and column of this cursor, found by reading the text before
    /// it.
    pub fn to_position(&self) -> (result: Position)
        requires
            self.wf(),
        ensures
            result.line == line_of(self.bytes().take(self.index as int)),
            result.column == column_of(self.bytes().take(self.index as int)),
    {
        let bytes = self.input.as_str().as_bytes();
        position_at(bytes, self.index)
    }
}

/// The position of offset `index` in `bytes`.
pub fn position_at(bytes: &[u8], index: usize) -> (result: Position)
    requires
        index <= bytes@.len() < usize::MAX,
    ensures
        result.line == line_of(bytes@.take(index as int)),
        result.column == column_of(bytes@.take(index as int)),
{
    let prefix = vstd::slice::slice_subrange(bytes, 0, index);
    assert(prefix@ =~= bytes@.take(index as int));
    Position::from_bytes(prefix)
}

/// Two offsets that name a piece of some text. It holds no text, and
/// becomes a `Span` once the text is at hand.
#[derive(Debug, Copy, Clone)]
pub struct PartialSpan {
    pub start: usize,
    pub end: usize,
}

impl PartialSpan {
    pub fn new(start: usize, end: usize) -> (result: PartialSpan)
        ensures
            result.start == start,
            result.end == end,
    {
        PartialSpan { start, end }
    }

    pub fn to_range(&self) -> (result: Range<usize>)
        ensures
            result.start == self.start,
            result.end == self.end,
    {
        self.start..self.end
    }

    /// The span of `input` between the two offsets, or `None` where they
    /// are out of order, beyond the text or inside a character.
    pub fn upgrade(&self, input: &Arc<String>) -> (result: Option<Span>)
        ensures
            result is Some <==> self.start <= self.end && is_boundary(
                text_bytes(input),
                self.start as int,
            ) && is_boundary(text_bytes(input), self.end as int) && text_bytes(input).len()
                < usize::MAX,
            result matches Some(span) ==> span.wf() && span.start == self.start && span.end
                == self.end && span.input == *input,
    {
        let bytes = input.as_str().as_bytes();
        if self.start <= self.end && bytes.len() < usize::MAX && check_boundary(bytes, self.start)
            && check_boundary(bytes, self.end) {
            Some(Span { input: share(input), start: self.start, end: self.end })
        } else {
            None
        }
    }
}

/// A piece of a source text, from `start` up to `end`.
#[derive(Debug, Clone)]
pub struct Span {
    pub input: Arc<String>,
    pub start: usize,
    pub end: usize,
}

impl Span {
    pub open spec fn bytes(&self) -> Seq<u8> {
        text_bytes(&self.input)
    }

    /// The offsets are in order and are boundaries of the text.
    pub open spec fn wf(&self) -> bool {
        &&& self.start <= self.end
        &&& is_boundary(self.bytes(), self.start as int)
        &&& is_boundary(self.bytes(), self.end as int)
        &&& self.bytes().len() < usize::MAX
    }

    /// The span from one cursor to another in the same text.
    pub fn from_cursors(first: &Cursor, end: &Cursor) -> (result: Span)
        requires
            first.wf(),
            end.wf(),
            first.input == end.input,
            first.index <= end.index,
        ensures
            result.wf(),
            result.input == first.input,
            result.start == first.index,
            result.end == end.index,
    {
        Span { input: share(&first.input), start: first.index, end: end.index }
    }

    /// The cursors at the two ends of this span.
    pub fn to_cursors(&self) -> (result: (Cursor, Cursor))
        requires
            self.wf(),
        ensures
            result.0.wf(),
            result.1.wf(),
            result.0.input == self.input,
            result.1.input == self.input,
            result.0.index == self.start,
            result.1.index == self.end,
    {
        (
            Cursor { input: share(&self.input), index: self.start },
            Cursor { input: share(&self.input), index: self.end },
        )
    }

    /// The smallest span that holds both this span and `other`.
    pub fn union(&self, other: &Span) -> (result: Span)
        requires
            self.wf(),
            other.wf(),
            self.input == other.input,
        ensures
            result.wf(),
            result.input == self.input,
            result.start == if self.start <= other.start {
                self.start
            } else {
                other.start
            },
            result.end == if self.end >= other.end {
                self.end
            } else {
                other.end
            },
    {
        let start = if self.start <= other.start {
            self.start
        } else {
            other.start
        };
        let end = if self.end >= other.end {
            self.end
        } else {
            other.end
        };
        Span { input: share(&self.input), start, end }
    }

    /// Whether `second` lies inside this span.
    pub fn fits_in(&self, second: &Span) -> (result: bool)
        ensures
            result == (second.start >= self.start && second.end <= self.end),
    {
        second.start >= self.start && second.end <= self.end
    }

    /// The number of bytes of the text before the line on which this span
    /// starts.
    pub fn count_before(&self) -> (result: usize)
        requires
            self.wf(),
        ensures
            result == line_start(self.bytes(), self.start as int),
    {
        let bytes = self.input.as_str().as_bytes();
        start_of_line(bytes, self.start)
    }

    /// Each line that this span touches, with its number, from the line on
    /// which the span starts to the line on which it ends. A line holds its
    /// line end.
    pub fn annotated_lines(&self) -> (result: Vec<(usize, Vec<u8>)>)
        requires
            self.wf(),
        ensures
            numbered_view(result@) == lines_from(
                self.bytes(),
                line_start(self.bytes(), self.start as int),
                self.end as int,
                line_of(self.bytes().take(self.start as int)),
            ),
    {
        let bytes = self.input.as_str().as_bytes();
        collect_lines(bytes, self.start, self.end)
    }

    /// The lines that this span touches, each followed by a line of carets
    /// under what it holds of `second`, where it holds any. `None` where
    /// `second` does not lie inside this span.
    pub fn highlight_with(&self, second: &Span) -> (result: Option<Vec<Line>>)
        requires
            self.wf(),
        ensures
            result is Some <==> (second.start >= self.start && second.end <= self.end),
            result matches Some(lines) ==> lines_view(lines@) == highlighted(
                lines_from(
                    self.bytes(),
                    line_start(self.bytes(), self.start as int),
                    self.end as int,
                    line_of(self.bytes().take(self.start as int)),
                ),
                line_start(self.bytes(), self.start as int),
                second.start as int,
                second.end as int,
            ),
    {
        if !self.fits_in(second) {
            return None;
        }
        let lines = self.annotated_lines();
        let seen = self.count_before();
        proof {
            lemma_line_start_bounds(self.bytes(), self.start as int);
            lemma_lines_from_extent(
                self.bytes(),
                line_start(self.bytes(), self.start as int),
                self.end as int,
                line_of(self.bytes().take(self.start as int)),
            );
        }
        Some(highlight_lines(&lines, seen, second.start, second.end))
    }
}

/// The offset at which the line that holds offset `index` begins.
pub fn start_of_line(bytes: &[u8], index: usize) -> (result: usize)
    requires
        index <= bytes@.len(),
    ensures
        result == line_start(bytes@, index as int),
        result <= index,
{
    let mut at: usize = index;
    while at > 0 && bytes[at - 1] != NEWLINE
        invariant
            at <= index <= bytes@.len(),
            line_start(bytes@, at as int) == line_start(bytes@, index as int),
        decreases at,
    {
        at -= 1;
    }
    at
}

/// The offset just behind the line that holds offset `index`.
pub fn end_of_line(bytes: &[u8], index: usize) -> (result: usize)
    requires
        index <= bytes@.len(),
    ensures
        result == line_end(bytes@, index as int),
        index <= result <= bytes@.len(),
        index < bytes@.len() ==> index < result,
{
    let mut at: usize = index;
    while at < bytes.len() && bytes[at] != NEWLINE
        invariant
            index <= at <= bytes@.len(),
            line_end(bytes@, at as int) == line_end(bytes@, index as int),
        decreases bytes@.len() - at,
    {
        at += 1;
    }
    if at < bytes.len() {
        at + 1
    } else {
        at
    }
}

/// A copy of the bytes of `bytes` from `start` up to `end`.
pub fn copy_range(bytes: &[u8], start: usize, end: usize) -> (result: Vec<u8>)
    requires
        start <= end <= bytes@.len(),
    ensures
        result@ == bytes@.subrange(start as int, end as int),
{
    let mut out: Vec<u8> = Vec::new();
    let mut at: usize = start;
    while at < end
        invariant
            start <= at <= end <= bytes@.len(),
            out@ == bytes@.subrange(start as int, at as int),
        decreases end - at,
    {
        out.push(bytes[at]);
        at += 1;
        assert(out@ =~= bytes@.subrange(start as int, at as int));
    }
    out
}

/// What a list of numbered lines holds.
pub open spec fn numbered_view(lines: Seq<(usize, Vec<u8>)>) -> Seq<(nat, Seq<u8>)> {
    Seq::new(lines.len(), |i: int| (lines[i].0 as nat, lines[i].1@))
}

/// The sum of the lengths of `lines`.
pub open spec fn total_len(lines: Seq<(nat, Seq<u8>)>) -> nat
    decreases lines.len(),
{
    if lines.len() == 0 {
        0
    } else {
        total_len(lines.drop_last()) + lines.last().1.len()
    }
}

/// The lines that `lines_from` yields lie one behind the other in the text,
/// and so end within it.
pub proof fn lemma_lines_from_extent(bytes: Seq<u8>, from: int, end: int, number: nat)
    requires
        0 <= from,
    ensures
        from + total_len(lines_from(bytes, from, end, number)) <= if from <= bytes.len() {
            bytes.len() as int
        } else {
            from
        },
        forall|k: int|
            0 <= k <= lines_from(bytes, from, end, number).len() ==> from + total_len(
                #[trigger] lines_from(bytes, from, end, number).take(k),
            ) <= if from <= bytes.len() {
                bytes.len() as int
            } else {
                from
            },
    decreases bytes.len() - from,
{
    let lines = lines_from(bytes, from, end, number);
    lemma_line_end_bounds(bytes, from);
    if from >= bytes.len() || from > end {
        assert(lines.len() == 0);
        assert forall|k: int| 0 <= k <= lines.len() implies from + total_len(
            #[trigger] lines.take(k),
        ) <= if from <= bytes.len() {
            bytes.len() as int
        } else {
            from
        } by {
            assert(lines.take(k) =~= Seq::empty());
        }
    } else {
        let next = line_end(bytes, from);
        lemma_line_end_bounds(bytes, from);
        let rest = lines_from(bytes, next, end, number + 1);
        lemma_lines_from_extent(bytes, next, end, number + 1);
        let head = (number, bytes.subrange(from, next));
        assert(lines =~= seq![head] + rest);
        assert forall|k: int| 0 <= k <= lines.len() implies from + total_len(
            #[trigger] lines.take(k),
        ) <= bytes.len() by {
            if k == 0 {
                assert(lines.take(k) =~= Seq::empty());
            } else {
                assert(lines.take(k) =~= seq![head] + rest.take(k - 1));
                lemma_total_len_prepend(head, rest.take(k - 1));
            }
        }
        assert(lines.take(lines.len() as int) =~= lines);
    }
}

pub proof fn lemma_total_len_prepend(head: (nat, Seq<u8>), rest: Seq<(nat, Seq<u8>)>)
    ensures
        total_len(seq![head] + rest) == head.1.len() + total_len(rest),
    decreases rest.len(),
{
    let all = seq![head] + rest;
    if rest.len() == 0 {
        assert(all.drop_last() =~= Seq::empty());
        assert(total_len(all.drop_last()) == 0);
    } else {
        assert(all.drop_last() =~= seq![head] + rest.drop_last());
        lemma_total_len_prepend(head, rest.drop_last());
    }
}

/// The lines of `bytes` from the one that holds offset `start` to the one
/// that holds offset `end`, each with its number.
pub fn collect_lines(bytes: &[u8], start: usize, end: usize) -> (result: Vec<(usize, Vec<u8>)>)
    requires
        start <= bytes@.len() < usize::MAX,
    ensures
        numbered_view(result@) == lines_from(
            bytes@,
            line_start(bytes@, start as int),
            end as int,
            line_of(bytes@.take(start as int)),
        ),
{
    let first = start_of_line(bytes, start);
    let position = position_at(bytes, start);
    let mut number: usize = position.line;
    let mut from: usize = first;
    let mut out: Vec<(usize, Vec<u8>)> = Vec::new();
    let ghost whole = lines_from(
        bytes@,
        first as int,
        end as int,
        line_of(bytes@.take(start as int)),
    );
    proof {
        lemma_line_of_line_start(bytes@, start as int);
        lemma_line_of_bound(bytes@.take(first as int));
    }
    while from < bytes.len() && from <= end
        invariant
            from <= bytes@.len() < usize::MAX,
            number <= from + 1,
            whole == numbered_view(out@) + lines_from(bytes@, from as int, end as int, number as nat),
        decreases bytes@.len() - from,
    {
        let next = end_of_line(bytes, from);
        let text = copy_range(bytes, from, next);
        let ghost before = numbered_view(out@);
        out.push((number, text));
        proof {
            assert(numbered_view(out@) =~= before + seq![
                (number as nat, bytes@.subrange(from as int, next as int)),
            ]);
        }
        number += 1;
        from = next;
    }
    proof {
        assert(lines_from(bytes@, from as int, end as int, number as nat) =~= Seq::empty());
        assert(whole =~= numbered_view(out@));
    }
    out
}

/// A line of text for display, with or without a line number.
#[derive(Clone, Debug)]
pub enum Line {
    /// A line that is shown with its line number.
    Labelled(usize, Vec<u8>),
    /// A line that is shown without a line number.
    Unlabelled(Vec<u8>),
}

/// What a line for display holds.
pub enum LineView {
    Labelled(nat, Seq<u8>),
    Unlabelled(Seq<u8>),
}

impl Line {
    pub open spec fn view(&self) -> LineView {
        match self {
            Line::Labelled(number, text) => LineView::Labelled(*number as nat, text@),
            Line::Unlabelled(text) => LineView::Unlabelled(text@),
        }
    }

    pub fn is_labelled(&self) -> (result: bool)
        ensures
            result == (self@ is Labelled),
    {
        match self {
            Line::Labelled(_, _) => true,
            Line::Unlabelled(_) => false,
        }
    }

    pub fn new_labelled(index: usize, value: Vec<u8>) -> (result: Line)
        ensures
            result@ == LineView::Labelled(index as nat, value@),
    {
        Line::Labelled(index, value)
    }

    pub fn new_unlabelled(value: Vec<u8>) -> (result: Line)
        ensures
            result@ == LineView::Unlabelled(value@),
    {
        Line::Unlabelled(value)
    }

    pub fn empty() -> (result: Line)
        ensures
            result@ == LineView::Unlabelled(Seq::<u8>::empty()),
    {
        Line::Unlabelled(Vec::new())
    }
}

/// What a list of lines for display holds.
pub open spec fn lines_view(lines: Seq<Line>) -> Seq<LineView> {
    Seq::new(lines.len(), |i: int| lines[i]@)
}

/// The distance between two numbers.
pub fn difference(first: usize, second: usize) -> (result: usize)
    ensures
        result == if first >= second {
            first - second
        } else {
            second - first
        },
{
    if first >= second {
        first - second
    } else {
        second - first
    }
}

/// `count` times the byte `byte`.
pub open spec fn repeated(byte: u8, count: int) -> Seq<u8> {
    Seq::new(
        if count > 0 {
            count as nat
        } else {
            0
        },
        |i: int| byte,
    )
}

/// Where the carets under a line begin: the line lies in the text from
/// `seen` up to `next`, what is to be marked from `start` up to `end`.
pub open spec fn caret_begin(seen: int, next: int, start: int, end: int) -> int {
    if start > seen {
        start - seen
    } else {
        0
    }
}

/// The number of carets under a line: as many as the line holds bytes of
/// what is to be marked. It is 0 where the two do not overlap, and so for
/// everything of width 0.
pub open spec fn caret_count(seen: int, next: int, start: int, end: int) -> int {
    let from = if start > seen {
        start
    } else {
        seen
    };
    let to = if end < next {
        end
    } else {
        next
    };
    if to > from {
        to - from
    } else {
        0
    }
}

/// The line of spaces and carets that marks, under a line that lies from
/// `seen` up to `next`, what it holds of `start` up to `end`.
pub open spec fn caret_line(seen: int, next: int, start: int, end: int) -> Seq<u8> {
    repeated(32u8, caret_begin(seen, next, start, end)) + repeated(
        94u8,
        caret_count(seen, next, start, end),
    )
}

/// The numbered lines `lines`, of which the first begins at offset `seen`,
/// each followed by its line of carets where it has at least one caret.
pub open spec fn highlighted(lines: Seq<(nat, Seq<u8>)>, seen: int, start: int, end: int) -> Seq<
    LineView,
>
    decreases lines.len(),
{
    if lines.len() == 0 {
        Seq::empty()
    } else {
        let before = lines.drop_last();
        let at = seen + total_len(before);
        let next = at + lines.last().1.len();
        let shown = highlighted(before, seen, start, end).push(
            LineView::Labelled(lines.last().0, lines.last().1),
        );
        if caret_count(at, next, start, end) > 0 {
            shown.push(LineView::Unlabelled(caret_line(at, next, start, end)))
        } else {
            shown
        }
    }
}

/// The number of carets under all of `lines`, of which the first begins at
/// offset `seen`.
pub open spec fn carets_in(lines: Seq<(nat, Seq<u8>)>, seen: int, start: int, end: int) -> int
    decreases lines.len(),
{
    if lines.len() == 0 {
        0
    } else {
        let before = lines.drop_last();
        let at = seen + total_len(before);
        carets_in(before, seen, start, end) + caret_count(
            at,
            at + lines.last().1.len(),
            start,
            end,
        )
    }
}

/// However an underline is split over lines, nothing of it is lost and
/// nothing is marked twice: the carets under the lines are as many as the
/// lines together hold bytes of the underline. An underline that lies in
/// the lines has as many carets as it has bytes.
pub proof fn lemma_carets_cover_the_underline(
    lines: Seq<(nat, Seq<u8>)>,
    seen: int,
    start: int,
    end: int,
)
    requires
        start <= end,
    ensures
        carets_in(lines, seen, start, end) == caret_count(
            seen,
            seen + total_len(lines),
            start,
            end,
        ),
        seen <= start && end <= seen + total_len(lines) ==> carets_in(lines, seen, start, end)
            == end - start,
    decreases lines.len(),
{
    if lines.len() > 0 {
        lemma_carets_cover_the_underline(lines.drop_last(), seen, start, end);
    }
}

/// Appends `count` times the byte `byte` to `out`.
pub fn push_repeated(out: &mut Vec<u8>, byte: u8, count: usize)
    ensures
        final(out)@ == old(out)@ + repeated(byte, count as int),
{
    let mut done: usize = 0;
    while done < count
        invariant
            done <= count,
            out@ == old(out)@ + repeated(byte, done as int),
        decreases count - done,
    {
        out.push(byte);
        done += 1;
        assert(out@ =~= old(out)@ + repeated(byte, done as int));
    }
}

/// Appends the bytes of `bytes` to `out`.
pub fn push_all(out: &mut Vec<u8>, bytes: &[u8])
    ensures
        final(out)@ == old(out)@ + bytes@,
{
    let mut done: usize = 0;
    while done < bytes.len()
        invariant
            done <= bytes@.len(),
            out@ == old(out)@ + bytes@.take(done as int),
        decreases bytes@.len() - done,
    {
        out.push(bytes[done]);
        done += 1;
        assert(out@ =~= old(out)@ + bytes@.take(done as int));
    }
    assert(bytes@.take(done as int) =~= bytes@);
}

/// The numbered lines `lines`, of which the first begins at offset `seen`
/// of the text, each followed by a line of carets under what it holds of
/// the bytes from `start` up to `end`, where it holds any.
pub fn highlight_lines(lines: &Vec<(usize, Vec<u8>)>, seen: usize, start: usize, end: usize) -> (result:
    Vec<Line>)
    requires
        forall|k: int|
            0 <= k <= lines@.len() ==> seen + total_len(#[trigger] numbered_view(lines@).take(k))
                <= usize::MAX,
    ensures
        lines_view(result@) == highlighted(
            numbered_view(lines@),
            seen as int,
            start as int,
            end as int,
        ),
{
    let mut out: Vec<Line> = Vec::new();
    let mut at: usize = seen;
    let mut index: usize = 0;
    let ghost all = numbered_view(lines@);
    proof {
        assert(all.take(0) =~= Seq::empty());
    }
    while index < lines.len()
        invariant
            index <= lines@.len(),
            all == numbered_view(lines@),
            at == seen + total_len(all.take(index as int)),
            lines_view(out@) == highlighted(
                all.take(index as int),
                seen as int,
                start as int,
                end as int,
            ),
            forall|k: int|
                0 <= k <= lines@.len() ==> seen + total_len(#[trigger] all.take(k))
                    <= usize::MAX,
        decreases lines@.len() - index,
    {
        let number = lines[index].0;
        let text = &lines[index].1;
        proof {
            assert(all.take(index + 1).drop_last() =~= all.take(index as int));
            assert(all.take(index + 1).last() == (number as nat, text@));
        }
        let next: usize = at + text.len();
        let ghost shown = lines_view(out@);
        out.push(Line::Labelled(number, text.clone()));
        proof {
            assert(lines_view(out@) =~= shown.push(LineView::Labelled(number as nat, text@)));
        }
        let from: usize = if start > at {
            start
        } else {
            at
        };
        let to: usize = if end < next {
            end
        } else {
            next
        };
        if to > from {
            let mut carets: Vec<u8> = Vec::new();
            push_repeated(&mut carets, 32u8, from - at);
            push_repeated(&mut carets, 94u8, to - from);
            let ghost labelled = lines_view(out@);
            out.push(Line::Unlabelled(carets));
            proof {
                assert(lines_view(out@) =~= labelled.push(
                    LineView::Unlabelled(
                        caret_line(at as int, next as int, start as int, end as int),
                    ),
                ));
            }
        }
        at = next;
        index += 1;
    }
    proof {
        assert(all.take(index as int) =~= all);
    }
    out
}

/// Walks numbered lines and marks, under each, what it holds of the bytes
/// from `start` up to `end` of the text.
pub struct LinesHighlighted {
    /// The offset in the text at which the next line begins.
    pub seen: usize,
    pub start: usize,
    pub end: usize,
    pub lines: Vec<(usize, Vec<u8>)>,
    /// The number of lines that were handed out.
    pub taken: usize,
}

impl LinesHighlighted {
    pub fn new(seen: usize, start: usize, end: usize, lines: Vec<(usize, Vec<u8>)>) -> (result:
        LinesHighlighted)
        ensures
            result.seen == seen,
            result.start == start,
            result.end == end,
            result.lines == lines,
            result.taken == 0,
    {
        LinesHighlighted { seen, start, end, lines, taken: 0 }
    }

    /// The next line with its number and the line of carets under it, which
    /// is empty where the line holds nothing of what is to be marked. `None`
    /// when every line was handed out or the offsets leave the range of the
    /// machine.
    pub fn next(&mut self) -> (result: Option<(Line, Line)>)
        ensures
            final(self).start == old(self).start,
            final(self).end == old(self).end,
            final(self).lines == old(self).lines,
            result is Some <==> old(self).taken < old(self).lines@.len() && old(self).seen + old(
                self,
            ).lines@[old(self).taken as int].1@.len() <= usize::MAX,
            result is None ==> *final(self) == *old(self),
            result matches Some(pair) ==> {
                let line = old(self).lines@[old(self).taken as int];
                &&& final(self).taken == old(self).taken + 1
                &&& final(self).seen == old(self).seen + line.1@.len()
                &&& pair.0@ == LineView::Labelled(line.0 as nat, line.1@)
                &&& pair.1@ == LineView::Unlabelled(
                    if caret_count(
                        old(self).seen as int,
                        final(self).seen as int,
                        old(self).start as int,
                        old(self).end as int,
                    ) > 0 {
                        caret_line(
                            old(self).seen as int,
                            final(self).seen as int,
                            old(self).start as int,
                            old(self).end as int,
                        )
                    } else {
                        Seq::<u8>::empty()
                    },
                )
            },
    {
        if self.taken >= self.lines.len() {
            return None;
        }
        let number = self.lines[self.taken].0;
        let text = self.lines[self.taken].1.clone();
        if text.len() > usize::MAX - self.seen {
            return None;
        }
        let next: usize = self.seen + text.len();
        let from: usize = if self.start > self.seen {
            self.start
        } else {
            self.seen
        };
        let to: usize = if self.end < next {
            self.end
        } else {
            next
        };
        let mut carets: Vec<u8> = Vec::new();
        if to > from {
            push_repeated(&mut carets, 32u8, difference(from, self.seen));
            push_repeated(&mut carets, 94u8, to - from);
        }
        self.seen = next;
        self.taken = self.taken + 1;
        Some((Line::Labelled(number, text), Line::Unlabelled(carets)))
    }
}

} // verus!
