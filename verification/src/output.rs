use crate::evil::{floor_log10, log10};
use crate::position::{
    collect_lines, highlight_lines, highlighted, lemma_line_start_bounds, lemma_lines_from_extent, lines_view,
    line_of, column_of, line_start, lines_from, position_at, push_all, push_repeated, repeated,
    start_of_line, text_bytes, Line, LineView, Span, NEWLINE,
};
use colored::Colorize;
use std::sync::Arc;
use vstd::prelude::*;
use vstd::string::*;

verus! {

/// The decimal digits of `n`, as ASCII.
pub open spec fn decimal(n: nat) -> Seq<u8>
    decreases n,
{
    if n < 10 {
        seq![(48 + n) as u8]
    } else {
        decimal(n / 10).push((48 + n % 10) as u8)
    }
}

/// A number has one decimal digit more than its logarithm to base 10.
pub proof fn lemma_decimal_len(n: nat)
    ensures
        decimal(n).len() == floor_log10(n) + 1,
    decreases n,
{
    if n >= 10 {
        lemma_decimal_len(n / 10);
    }
}

/// The number of decimal digits of `n`.
pub fn digit_count(n: usize) -> (result: usize)
    ensures
        result == decimal(n as nat).len(),
        1 <= result <= 20,
    decreases n,
{
    proof {
        lemma_decimal_len(n as nat);
    }
    if n == 0 {
        1
    } else if n <= 0xFFFF_FFFF {
        let digits: u32 = log10(n as u32) + 1;
        digits as usize
    } else {
        proof {
            lemma_decimal_len((n / 10) as nat);
            reveal_with_fuel(floor_log10, 12);
        }
        let rest = digit_count(n / 10);
        assert(rest <= 19) by {
            lemma_digits_of_machine_number((n / 10) as nat);
        }
        rest + 1
    }
}

proof fn lemma_digits_of_machine_number(n: nat)
    requires
        n <= 1844674407370955161nat,
    ensures
        decimal(n).len() <= 19,
{
    reveal_with_fuel(decimal, 21);
}

/// Appends the decimal digits of `n` to `out`.
pub fn push_decimal(out: &mut Vec<u8>, n: usize)
    ensures
        final(out)@ == old(out)@ + decimal(n as nat),
    decreases n,
{
    if n >= 10 {
        push_decimal(out, n / 10);
    }
    let digit: u8 = (n % 10) as u8;
    out.push(48u8 + digit);
    assert(out@ =~= old(out)@ + decimal(n as nat));
}

/// `text` without the line end that it may end with.
pub open spec fn without_line_end(text: Seq<u8>) -> Seq<u8> {
    if text.len() > 0 && text.last() == NEWLINE {
        text.drop_last()
    } else {
        text
    }
}

/// What separates the gutter from the text of a line: a bar between two
/// spaces.
pub open spec fn gutter_bar() -> Seq<u8> {
    seq![32u8, 124u8, 32u8]
}

/// A line as it is shown, behind a gutter of width `padding`: its number,
/// moved to the right of the gutter, or spaces in place of one; the bar; the
/// text up to its line end.
pub open spec fn labelled_line(padding: nat, line: LineView) -> Seq<u8> {
    match line {
        LineView::Labelled(number, text) => repeated(32u8, padding - decimal(number).len())
            + decimal(number) + gutter_bar() + without_line_end(text),
        LineView::Unlabelled(text) => repeated(32u8, padding as int) + gutter_bar()
            + without_line_end(text),
    }
}

/// The lines `lines` as they are shown, each behind a line end.
pub open spec fn block_lines(padding: nat, lines: Seq<LineView>) -> Seq<u8>
    decreases lines.len(),
{
    if lines.len() == 0 {
        Seq::empty()
    } else {
        block_lines(padding, lines.drop_last()) + seq![NEWLINE] + labelled_line(
            padding,
            lines.last(),
        )
    }
}

/// Appends to `out` the line `line` as it is shown behind a gutter of width
/// `padding`.
pub fn push_labelled_line(out: &mut Vec<u8>, padding: usize, line: &Line)
    ensures
        final(out)@ == old(out)@ + labelled_line(padding as nat, line@),
{
    match line {
        Line::Labelled(number, text) => {
            let digits = digit_count(*number);
            let room: usize = if padding > digits {
                padding - digits
            } else {
                0
            };
            push_repeated(out, 32u8, room);
            push_decimal(out, *number);
            push_bar_and_text(out, text);
            assert(out@ =~= old(out)@ + labelled_line(padding as nat, line@));
        },
        Line::Unlabelled(text) => {
            push_repeated(out, 32u8, padding);
            push_bar_and_text(out, text);
            assert(out@ =~= old(out)@ + labelled_line(padding as nat, line@));
        },
    }
}

fn push_bar_and_text(out: &mut Vec<u8>, text: &Vec<u8>)
    ensures
        final(out)@ == old(out)@ + gutter_bar() + without_line_end(text@),
{
    out.push(32u8);
    out.push(124u8);
    out.push(32u8);
    let length: usize = if text.len() > 0 && text[text.len() - 1] == NEWLINE {
        text.len() - 1
    } else {
        text.len()
    };
    let shown = vstd::slice::slice_subrange(text.as_slice(), 0, length);
    assert(shown@ =~= without_line_end(text@));
    push_all(out, shown);
    assert(out@ =~= old(out)@ + gutter_bar() + without_line_end(text@));
}

/// Walks lines and hands each out as it is shown behind a gutter.
pub struct LabelLines {
    pub padding: usize,
    pub lines: Vec<Line>,
    /// The number of lines that were handed out.
    pub taken: usize,
}

impl LabelLines {
    pub fn new(padding: usize, lines: Vec<Line>) -> (result: LabelLines)
        ensures
            result.padding == padding,
            result.lines == lines,
            result.taken == 0,
    {
        LabelLines { padding, lines, taken: 0 }
    }

    /// The next line as it is shown, or `None` when every line was handed
    /// out.
    pub fn next(&mut self) -> (result: Option<Vec<u8>>)
        ensures
            final(self).padding == old(self).padding,
            final(self).lines == old(self).lines,
            result is Some <==> old(self).taken < old(self).lines@.len(),
            result is None ==> final(self).taken == old(self).taken,
            result matches Some(text) ==> final(self).taken == old(self).taken + 1 && text@
                == labelled_line(
                old(self).padding as nat,
                old(self).lines@[old(self).taken as int]@,
            ),
    {
        if self.taken >= self.lines.len() {
            return None;
        }
        let mut out: Vec<u8> = Vec::new();
        push_labelled_line(&mut out, self.padding, &self.lines[self.taken]);
        self.taken = self.taken + 1;
        assert(out@ =~= labelled_line(
            old(self).padding as nat,
            old(self).lines@[old(self).taken as int]@,
        ));
        Some(out)
    }
}

/// How grave a message is.
#[derive(Debug, Clone, Copy, PartialEq, Eq)]
pub enum OutputKind {
    Error,
    Warning,
    Hint,
}

impl OutputKind {
    /// The word for this kind: `error`, `warning` or `hint`.
    pub open spec fn word(&self) -> Seq<u8> {
        match self {
            OutputKind::Error => seq![101u8, 114u8, 114u8, 111u8, 114u8],
            OutputKind::Warning => seq![119u8, 97u8, 114u8, 110u8, 105u8, 110u8, 103u8],
            OutputKind::Hint => seq![104u8, 105u8, 110u8, 116u8],
        }
    }

    /// The word for this kind.
    pub fn label(&self) -> (result: Vec<u8>)
        ensures
            result@ == self.word(),
    {
        let mut out: Vec<u8> = Vec::new();
        match self {
            OutputKind::Error => {
                out.push(101u8);
                out.push(114u8);
                out.push(114u8);
                out.push(111u8);
                out.push(114u8);
            },
            OutputKind::Warning => {
                out.push(119u8);
                out.push(97u8);
                out.push(114u8);
                out.push(110u8);
                out.push(105u8);
                out.push(110u8);
                out.push(103u8);
            },
            OutputKind::Hint => {
                out.push(104u8);
                out.push(105u8);
                out.push(110u8);
                out.push(116u8);
            },
        }
        assert(out@ =~= self.word());
        out
    }

    /// The word for this kind, as text.
    pub open spec fn name(&self) -> Seq<char> {
        match self {
            OutputKind::Error => "error"@,
            OutputKind::Warning => "warning"@,
            OutputKind::Hint => "hint"@,
        }
    }

    /// The escape sequence that begins the colour of this kind: bright red
    /// for an error, bright yellow for a warning, bright blue for a hint.
    pub open spec fn colour(&self) -> Seq<char> {
        match self {
            OutputKind::Error => "\x1B[91m"@,
            OutputKind::Warning => "\x1B[93m"@,
            OutputKind::Hint => "\x1B[94m"@,
        }
    }

    /// The word for this kind in its colour, where the process writes
    /// colours: red for an error, yellow for a warning, blue for a hint.
    /// Whether it does depends on the terminal and the environment, so the
    /// result is one of the forms that `painted` allows.
    pub fn colored_label(&self) -> (result: String)
        ensures
            painted(result@, self.name(), self.colour()),
    {
        proof {
            reveal_strlit("error");
            reveal_strlit("warning");
            reveal_strlit("hint");
        }
        match self {
            OutputKind::Error => paint_bright_red("error"),
            OutputKind::Warning => paint_bright_yellow("warning"),
            OutputKind::Hint => paint_bright_blue("hint"),
        }
    }
}

/// The character with which every escape sequence begins.
pub open spec fn escape() -> char {
    '\u{1b}'
}

/// The escape sequence that ends a colour.
pub open spec fn colour_reset() -> Seq<char> {
    "\x1B[0m"@
}

/// Whether `text` is what `word` in the colour that `colour` begins can be
/// written as: the word alone, where the process writes no colours; the
/// word between the sequence of the colour and the reset, where it does;
/// the word before the reset alone, where colours are switched off while
/// the word is written.
pub open spec fn painted(text: Seq<char>, word: Seq<char>, colour: Seq<char>) -> bool {
    text == word || text == colour + word + colour_reset() || text == word + colour_reset()
}

/// `Colorize::bright_red` of the crate colored, and the text that its
/// result displays as. Whether the process writes colours is for the
/// environment to say, so the claim holds either way: a word that holds no
/// escape character is displayed as itself, or between the sequence for
/// bright red and the reset, or before the reset alone.
#[verifier::external_body]
fn paint_bright_red(word: &str) -> (result: String)
    ensures
        !word@.contains(escape()) ==> painted(result@, word@, "\x1B[91m"@),
{
    word.bright_red().to_string()
}

/// `Colorize::bright_yellow` of the crate colored, and the text that its
/// result displays as: for a word that holds no escape character, the word
/// itself, or between the sequence for bright yellow and the reset, or
/// before the reset alone.
#[verifier::external_body]
fn paint_bright_yellow(word: &str) -> (result: String)
    ensures
        !word@.contains(escape()) ==> painted(result@, word@, "\x1B[93m"@),
{
    word.bright_yellow().to_string()
}

/// `Colorize::bright_blue` of the crate colored, and the text that its
/// result displays as: for a word that holds no escape character, the word
/// itself, or between the sequence for bright blue and the reset, or
/// before the reset alone.
#[verifier::external_body]
fn paint_bright_blue(word: &str) -> (result: String)
    ensures
        !word@.contains(escape()) ==> painted(result@, word@, "\x1B[94m"@),
{
    word.bright_blue().to_string()
}

/// `String::from_utf8`: the text that `bytes` encode, where they are valid
/// UTF-8, and `None` where they are not.
#[verifier::external_body]
pub(crate) fn text_of(bytes: Vec<u8>) -> (result: Option<String>)
    ensures
        result is Some <==> vstd::utf8::valid_utf8(bytes@),
        result matches Some(text) ==> vstd::utf8::encode_utf8(text@) == bytes@,
{
    String::from_utf8(bytes).ok()
}

/// The text ` in `.
pub open spec fn in_word() -> Seq<u8> {
    seq![32u8, 105u8, 110u8, 32u8]
}

/// The text of a code block: a header with the line and column at which
/// the underline starts, or the span where there is no underline, and the
/// file's name; an empty line; then each line that the span touches behind
/// a gutter with its number, followed by a line of carets under what it
/// holds of the underline, where it holds any: an underline of width 0
/// shows no carets, and neither does a line that holds nothing of the
/// underline. The gutter is as wide as the highest line number shown.
pub open spec fn codeblock_text(
    bytes: Seq<u8>,
    start: int,
    end: int,
    underline: Option<(int, int)>,
    filename: Seq<u8>,
) -> Seq<u8> {
    let at = match underline {
        Some(marked) => marked.0,
        None => start,
    };
    let first = line_start(bytes, start);
    let lines = lines_from(bytes, first, end, line_of(bytes.take(start)));
    let shown = match underline {
        Some(marked) => highlighted(lines, first, marked.0, marked.1),
        None => highlighted(lines, first, 0, 0),
    };
    let padding = if lines.len() == 0 {
        1
    } else {
        decimal(lines.last().0).len()
    };
    decimal(line_of(bytes.take(at))) + seq![58u8] + decimal(column_of(bytes.take(at)))
        + in_word() + filename + seq![NEWLINE] + block_lines(padding, shown)
}

/// A piece of a source text to show with a message: the lines that `span`
/// touches, and under them carets for `underline_span`.
#[derive(Debug)]
pub struct Codeblock {
    pub input: Arc<String>,
    pub span: Span,
    pub underline_span: Option<Span>,
    pub filename: String,
}

impl Codeblock {
    /// The spans are valid and lie in the text of this block.
    pub open spec fn wf(&self) -> bool {
        &&& self.span.wf()
        &&& self.span.input == self.input
        &&& self.underline_span matches Some(underline) ==> underline.wf() && underline.input
            == self.input
    }

    /// The offsets of the underline, where there is one.
    pub open spec fn underline(&self) -> Option<(int, int)> {
        match self.underline_span {
            Some(underline) => Some((underline.start as int, underline.end as int)),
            None => None,
        }
    }

    /// Whether the underline, where there is one, lies inside the span.
    pub open spec fn fits(&self) -> bool {
        self.underline_span matches Some(underline) ==> underline.start >= self.span.start
            && underline.end <= self.span.end
    }

    /// The text of this block.
    pub open spec fn text(&self) -> Seq<u8> {
        codeblock_text(
            text_bytes(&self.input),
            self.span.start as int,
            self.span.end as int,
            self.underline(),
            vstd::utf8::encode_utf8(self.filename@),
        )
    }

    /// The text of this block, or `None` where the underline does not lie
    /// inside the span.
    pub fn render(&self) -> (result: Option<Vec<u8>>)
        requires
            self.wf(),
        ensures
            result is Some <==> self.fits(),
            result matches Some(text) ==> text@ == self.text(),
    {
        let bytes = self.input.as_str().as_bytes();
        let (at, from, to): (usize, usize, usize) = match &self.underline_span {
            Some(underline) => {
                if !self.span.fits_in(underline) {
                    return None;
                }
                (underline.start, underline.start, underline.end)
            },
            None => (self.span.start, 0, 0),
        };
        let position = position_at(bytes, at);
        let first = start_of_line(bytes, self.span.start);
        let lines = collect_lines(bytes, self.span.start, self.span.end);
        proof {
            lemma_line_start_bounds(bytes@, self.span.start as int);
            lemma_lines_from_extent(
                bytes@,
                first as int,
                self.span.end as int,
                line_of(bytes@.take(self.span.start as int)),
            );
        }
        let shown = highlight_lines(&lines, first, from, to);
        let padding: usize = if lines.len() == 0 {
            1
        } else {
            digit_count(lines[lines.len() - 1].0)
        };
        let mut out: Vec<u8> = Vec::new();
        push_decimal(&mut out, position.line);
        out.push(58u8);
        push_decimal(&mut out, position.column);
        out.push(32u8);
        out.push(105u8);
        out.push(110u8);
        out.push(32u8);
        push_all(&mut out, self.filename.as_str().as_bytes());
        out.push(NEWLINE);
        let ghost head = out@;
        assert(head =~= decimal(line_of(bytes@.take(at as int))) + seq![58u8] + decimal(
            column_of(bytes@.take(at as int)),
        ) + in_word() + vstd::utf8::encode_utf8(self.filename@) + seq![NEWLINE]);
        let mut index: usize = 0;
        assert(shown@.take(0) =~= Seq::empty());
        assert(lines_view(shown@).take(0) =~= Seq::empty());
        while index < shown.len()
            invariant
                index <= shown@.len(),
                out@ == head + block_lines(
                    padding as nat,
                    lines_view(shown@).take(index as int),
                ),
            decreases shown@.len() - index,
        {
            let ghost before = out@;
            out.push(NEWLINE);
            push_labelled_line(&mut out, padding, &shown[index]);
            proof {
                let all = lines_view(shown@);
                assert(all.take(index + 1).drop_last() =~= all.take(index as int));
                assert(all.take(index + 1).last() == shown@[index as int]@);
                assert(out@ =~= head + block_lines(padding as nat, all.take(index + 1)));
            }
            index += 1;
        }
        proof {
            assert(lines_view(shown@).take(index as int) =~= lines_view(shown@));
        }
        Some(out)
    }
}

/// A message with its kind and, where it has one, the code that it is
/// about.
#[derive(Debug)]
pub struct Output {
    pub kind: OutputKind,
    pub message: String,
    pub context: Option<Codeblock>,
}

/// The text of a message: the code block, where there is one, and a line
/// end; the label; a colon and a space; the message.
pub open spec fn output_text(context: Option<Seq<u8>>, label: Seq<u8>, message: Seq<u8>) -> Seq<
    u8,
> {
    let tail = label + seq![58u8, 32u8] + message;
    match context {
        Some(block) => block + seq![NEWLINE] + tail,
        None => tail,
    }
}

/// Showing a message is a function of what it holds: two messages of one
/// kind with the same words, about the same piece of the same text under
/// the same file name, have the same text, byte for byte.
pub proof fn lemma_same_message_same_text(first: Output, second: Output)
    requires
        first.kind == second.kind,
        first.message@ == second.message@,
        first.context is Some <==> second.context is Some,
        first.context is Some ==> {
            let one = first.context.unwrap();
            let other = second.context.unwrap();
            &&& text_bytes(&one.input) == text_bytes(&other.input)
            &&& one.span.start == other.span.start
            &&& one.span.end == other.span.end
            &&& one.underline() == other.underline()
            &&& one.filename@ == other.filename@
        },
    ensures
        first.fits() == second.fits(),
        output_text(
            first.context_text(),
            first.kind.word(),
            vstd::utf8::encode_utf8(first.message@),
        ) == output_text(
            second.context_text(),
            second.kind.word(),
            vstd::utf8::encode_utf8(second.message@),
        ),
{
}

impl Output {
    /// The code block of this message is valid, where there is one.
    pub open spec fn wf(&self) -> bool {
        self.context matches Some(block) ==> block.wf()
    }

    /// Whether the code block of this message, where there is one, can be
    /// shown.
    pub open spec fn fits(&self) -> bool {
        self.context matches Some(block) ==> block.fits()
    }

    /// The text of the code block of this message, where there is one.
    pub open spec fn context_text(&self) -> Option<Seq<u8>> {
        match self.context {
            Some(block) => Some(block.text()),
            None => None,
        }
    }

    /// The text of this message with `label` for the word of its kind, or
    /// `None` where its code block cannot be shown.
    pub fn render_with_label(&self, label: &[u8]) -> (result: Option<Vec<u8>>)
        requires
            self.wf(),
        ensures
            result is Some <==> self.fits(),
            result matches Some(text) ==> text@ == output_text(
                self.context_text(),
                label@,
                vstd::utf8::encode_utf8(self.message@),
            ),
    {
        let mut out: Vec<u8> = match &self.context {
            Some(block) => {
                match block.render() {
                    Some(text) => {
                        let mut text = text;
                        text.push(NEWLINE);
                        text
                    },
                    None => {
                        return None;
                    },
                }
            },
            None => Vec::new(),
        };
        let ghost head = out@;
        push_all(&mut out, label);
        out.push(58u8);
        out.push(32u8);
        push_all(&mut out, self.message.as_str().as_bytes());
        assert(out@ =~= head + (label@ + seq![58u8, 32u8] + vstd::utf8::encode_utf8(self.message@)));
        assert(out@ =~= output_text(
            self.context_text(),
            label@,
            vstd::utf8::encode_utf8(self.message@),
        ));
        Some(out)
    }

    /// The text of this message, or `None` where its code block cannot be
    /// shown.
    pub fn render(&self) -> (result: Option<Vec<u8>>)
        requires
            self.wf(),
        ensures
            result is Some <==> self.fits(),
            result matches Some(text) ==> text@ == output_text(
                self.context_text(),
                self.kind.word(),
                vstd::utf8::encode_utf8(self.message@),
            ),
    {
        let label = self.kind.label();
        self.render_with_label(label.as_slice())
    }

    /// The text of this message as a string. `None` where its code block
    /// cannot be shown, or where the text is no valid UTF-8.
    pub fn render_text(&self) -> (result: Option<String>)
        requires
            self.wf(),
        ensures
            result is Some <==> self.fits() && vstd::utf8::valid_utf8(
                output_text(
                    self.context_text(),
                    self.kind.word(),
                    vstd::utf8::encode_utf8(self.message@),
                ),
            ),
            result matches Some(text) ==> vstd::utf8::encode_utf8(text@) == output_text(
                self.context_text(),
                self.kind.word(),
                vstd::utf8::encode_utf8(self.message@),
            ),
    {
        match self.render() {
            Some(bytes) => text_of(bytes),
            None => None,
        }
    }

    /// The text of this message with the word of its kind in colour, where
    /// the terminal takes colours: the text of this message with some
    /// label. `None` where its code block cannot be shown.
    pub fn render_colored(&self) -> (result: Option<Vec<u8>>)
        requires
            self.wf(),
        ensures
            result is Some <==> self.fits(),
            result matches Some(text) ==> exists|label: Seq<u8>|
                text@ == #[trigger] output_text(
                    self.context_text(),
                    label,
                    vstd::utf8::encode_utf8(self.message@),
                ),
    {
        let label = self.kind.colored_label();
        let result = self.render_with_label(label.as_str().as_bytes());
        proof {
            if result is Some {
                assert(result.unwrap()@ == output_text(
                    self.context_text(),
                    vstd::utf8::encode_utf8(label@),
                    vstd::utf8::encode_utf8(self.message@),
                ));
            }
        }
        result
    }
}

} // verus!
