use dusk::error::{format_terms, Diagnostic, DiagnosticTerm, Error, ErrorBuilder, ErrorKind, Unexpected};
use dusk::evil::{log10, log2};
use dusk::meta::{choose_layout, submodules, Layout, PackageKind};
use dusk::pretty::Pretty;
use dusk::span::Spanned;
use dusk::output::{digit_count, Codeblock, LabelLines, Output, OutputKind};
use dusk::parser::Parser;
use dusk::position::{difference, Cursor, Line, LinesHighlighted, PartialSpan, Position, Span};
use dusk::token::{Category, Token};
use std::sync::Arc;

fn input(text: &str) -> Arc<String> {
    Arc::new(text.to_string())
}

fn span(input: &Arc<String>, start: usize, end: usize) -> Span {
    PartialSpan::new(start, end).upgrade(input).unwrap()
}

fn output(text: &str, outer: (usize, usize), underline: Option<(usize, usize)>) -> Output {
    let input = input(text);
    Output {
        kind: OutputKind::Error,
        message: "something is wrong".to_string(),
        context: Some(Codeblock {
            span: span(&input, outer.0, outer.1),
            underline_span: underline.map(|(start, end)| span(&input, start, end)),
            filename: "demo.dusk".to_string(),
            input,
        }),
    }
}

#[test]
fn logarithms_to_base_two() {
    assert_eq!(log2(1), 0);
    assert_eq!(log2(2), 1);
    assert_eq!(log2(3), 1);
    assert_eq!(log2(4), 2);
    assert_eq!(log2(1023), 9);
    assert_eq!(log2(1024), 10);
    assert_eq!(log2(u32::MAX), 31);
    for shift in 0..32 {
        assert_eq!(log2(1u32 << shift), shift);
    }
}

#[test]
fn logarithms_to_base_ten() {
    assert_eq!(log10(1), 0);
    assert_eq!(log10(9), 0);
    assert_eq!(log10(10), 1);
    assert_eq!(log10(99), 1);
    assert_eq!(log10(100), 2);
    assert_eq!(log10(999_999_999), 8);
    assert_eq!(log10(1_000_000_000), 9);
    assert_eq!(log10(u32::MAX), 9);
    assert_eq!(digit_count(0), 1);
    assert_eq!(digit_count(12345), 5);
    assert_eq!(digit_count(usize::MAX), usize::MAX.to_string().len());
}

#[test]
fn positions_count_lines_and_characters() {
    let position = Position::from_str("ab\ncd");
    assert_eq!((position.line(), position.column()), (2, 3));
    let position = Position::from_str("");
    assert_eq!((position.line(), position.column()), (1, 1));
    let position = Position::from_str("é\n\nxé");
    assert_eq!((position.line(), position.column()), (3, 3));
    let position = Position::default();
    assert_eq!((position.line(), position.column()), (1, 1));
}

#[test]
fn cursors_stand_between_characters() {
    let input = input("aé\nb");
    assert!(Cursor::try_new(&input, 0).is_some());
    assert!(Cursor::try_new(&input, 1).is_some());
    assert!(Cursor::try_new(&input, 2).is_none());
    assert!(Cursor::try_new(&input, 3).is_some());
    assert!(Cursor::try_new(&input, 5).is_some());
    assert!(Cursor::try_new(&input, 6).is_none());
    let cursor = Cursor::try_new(&input, 4).unwrap();
    assert!(Arc::ptr_eq(&cursor.input, &input));
    let position = cursor.to_position();
    assert_eq!((position.line(), position.column()), (2, 1));
}

#[test]
fn partial_spans_become_spans() {
    let input = input("aé\nb");
    assert!(PartialSpan::new(0, 2).upgrade(&input).is_none());
    assert!(PartialSpan::new(3, 1).upgrade(&input).is_none());
    assert!(PartialSpan::new(0, 9).upgrade(&input).is_none());
    let whole = PartialSpan::new(0, 5).upgrade(&input).unwrap();
    assert_eq!((whole.start, whole.end), (0, 5));
    assert_eq!(PartialSpan::new(1, 3).to_range(), 1..3);
    let (first, last) = whole.to_cursors();
    assert_eq!((first.index, last.index), (0, 5));
    let again = Span::from_cursors(&first, &last);
    assert_eq!((again.start, again.end), (0, 5));
    let small = span(&input, 1, 3);
    assert!(whole.fits_in(&small));
    assert!(!small.fits_in(&whole));
    let other = span(&input, 3, 4);
    let both = small.union(&other);
    assert_eq!((both.start, both.end), (1, 4));
}

#[test]
fn spans_know_their_lines() {
    let input = input("one\ntwo\nthree\n");
    let second = span(&input, 5, 6);
    assert_eq!(second.count_before(), 4);
    assert_eq!(second.annotated_lines(), vec![(2, b"two\n".to_vec())]);
    let all = span(&input, 0, 14);
    assert_eq!(all.count_before(), 0);
    assert_eq!(
        all.annotated_lines(),
        vec![(1, b"one\n".to_vec()), (2, b"two\n".to_vec()), (3, b"three\n".to_vec())]
    );
    let last = span(&input, 8, 9);
    assert_eq!(last.annotated_lines(), vec![(3, b"three\n".to_vec())]);
    assert!(second.highlight_with(&all).is_none());
    let lines = all.highlight_with(&second).unwrap();
    assert_eq!(lines.len(), 4);
    assert!(lines[0].is_labelled());
    assert!(lines[1].is_labelled());
    assert!(!lines[2].is_labelled());
    assert!(matches!(&lines[2], Line::Unlabelled(text) if text == b" ^"));
}

#[test]
fn a_span_without_underline_shows_no_carets() {
    let text = output("one\ntwo\nthree\n", (4, 7), None).render_text().unwrap();
    assert_eq!(text, "2:1 in demo.dusk\n\n2 | two\nerror: something is wrong");
    assert!(!text.contains('^'));
}

#[test]
fn an_underline_of_no_width_shows_no_carets() {
    let first = output("one\ntwo\nthree\n", (4, 7), Some((5, 5))).render_text().unwrap();
    assert_eq!(first, "2:2 in demo.dusk\n\n2 | two\nerror: something is wrong");
    let second = output("one\ntwo\nthree\n", (4, 7), Some((5, 5))).render_text().unwrap();
    assert_eq!(first, second);
}

#[test]
fn rendering_twice_gives_the_same_bytes() {
    let subject = output("one\ntwo\nthree\n", (0, 13), Some((5, 10)));
    assert_eq!(subject.render(), subject.render());
    assert_eq!(subject.render_text(), subject.render_text());
    assert_eq!(subject.context.as_ref().unwrap().input.as_str(), "one\ntwo\nthree\n");
}

#[test]
fn carets_stand_under_the_underline() {
    let text = output("one\ntwo\nthree\n", (4, 7), Some((5, 7))).render_text().unwrap();
    assert_eq!(text, "2:2 in demo.dusk\n\n2 | two\n  |  ^^\nerror: something is wrong");
}

#[test]
fn an_underline_over_lines_is_split() {
    let text = output("ab\ncd\nef\n", (0, 8), Some((1, 4))).render_text().unwrap();
    assert_eq!(
        text,
        "1:2 in demo.dusk\n\n1 | ab\n  |  ^^\n2 | cd\n  | ^\n3 | ef\nerror: something is wrong"
    );
}

#[test]
fn the_gutter_is_as_wide_as_the_highest_line_number() {
    let mut source = String::new();
    for line in 1..=10 {
        source.push_str(&format!("line{}\n", line));
    }
    let start = source.find("line9").unwrap();
    let end = source.len() - 1;
    let text = output(&source, (start, end), None).render_text().unwrap();
    assert_eq!(
        text,
        "9:1 in demo.dusk\n\n 9 | line9\n10 | line10\nerror: something is wrong"
    );
}

#[test]
fn an_underline_outside_the_span_is_refused() {
    let subject = output("one\ntwo\nthree\n", (4, 7), Some((0, 5)));
    assert_eq!(subject.render(), None);
    assert_eq!(subject.render_text(), None);
    assert_eq!(subject.render_colored(), None);
    assert_eq!(subject.context.unwrap().render(), None);
}

#[test]
fn a_message_without_code_is_one_line() {
    let subject = Output { kind: OutputKind::Warning, message: "careful".to_string(), context: None };
    assert_eq!(subject.render_text().unwrap(), "warning: careful");
    assert_eq!(subject.render_with_label(b"note").unwrap(), b"note: careful".to_vec());
    let hint = Output { kind: OutputKind::Hint, message: "é".to_string(), context: None };
    assert_eq!(hint.render_text().unwrap(), "hint: é");
    assert_eq!(OutputKind::Error.label(), b"error".to_vec());
}

#[test]
fn coloured_labels_hold_the_word() {
    assert!(OutputKind::Error.colored_label().contains("error"));
    assert!(OutputKind::Warning.colored_label().contains("warning"));
    assert!(OutputKind::Hint.colored_label().contains("hint"));
    let subject = Output { kind: OutputKind::Hint, message: "look".to_string(), context: None };
    let text = String::from_utf8(subject.render_colored().unwrap()).unwrap();
    assert!(text.ends_with(": look"));
    assert!(text.contains("hint"));
}

#[test]
fn lines_are_labelled() {
    let lines = vec![
        Line::new_labelled(7, b"seven\n".to_vec()),
        Line::new_unlabelled(b" ^".to_vec()),
        Line::empty(),
        Line::new_labelled(12345, b"far".to_vec()),
    ];
    let mut labels = LabelLines::new(3, lines);
    assert_eq!(labels.next().unwrap(), b"  7 | seven".to_vec());
    assert_eq!(labels.next().unwrap(), b"    |  ^".to_vec());
    assert_eq!(labels.next().unwrap(), b"    | ".to_vec());
    assert_eq!(labels.next().unwrap(), b"12345 | far".to_vec());
    assert_eq!(labels.next(), None);
}

#[test]
fn lines_are_highlighted_one_by_one() {
    let lines = vec![(1, b"ab\n".to_vec()), (2, b"cd\n".to_vec()), (3, b"ef\n".to_vec())];
    let mut walk = LinesHighlighted::new(0, 1, 4, lines);
    let (line, carets) = walk.next().unwrap();
    assert!(matches!(line, Line::Labelled(1, text) if text == b"ab\n"));
    assert!(matches!(carets, Line::Unlabelled(text) if text == b" ^^"));
    let (_, carets) = walk.next().unwrap();
    assert!(matches!(carets, Line::Unlabelled(text) if text == b"^"));
    let (_, carets) = walk.next().unwrap();
    assert!(matches!(carets, Line::Unlabelled(text) if text.is_empty()));
    assert!(walk.next().is_none());
    assert_eq!(difference(3, 5), 2);
    assert_eq!(difference(5, 3), 2);
}

#[test]
fn choices_are_worded() {
    assert_eq!(format_terms(&[]), b"no tokens".to_vec());
    assert_eq!(format_terms(&[Token::Plus]), b"`+`".to_vec());
    assert_eq!(format_terms(&[Token::Plus, Token::Minus]), b"`+` or `-`".to_vec());
    assert_eq!(
        format_terms(&[Token::Plus, Token::Minus, Token::Not]),
        b"either `+`, `-`, or the keyword `not`".to_vec()
    );
}

#[test]
fn errors_are_worded() {
    let source = b"foo @ bar";
    let word = dusk::span::Span { start: 0, end: 3 };
    let symbol = dusk::span::Span { start: 4, end: 5 };
    let mismatch = ErrorKind::Diagnostic(Diagnostic::Mismatch {
        expected: DiagnosticTerm::Token(Token::ClosingParen),
        found: DiagnosticTerm::Word(word),
    });
    assert_eq!(mismatch.describe(source), b"expected `)` but found \"foo\"".to_vec());
    let mismatch = ErrorKind::Diagnostic(Diagnostic::Mismatch {
        expected: DiagnosticTerm::AnyOf(Category::ProductOperator),
        found: DiagnosticTerm::Symbol(symbol),
    });
    assert_eq!(mismatch.describe(source), b"expected `*` or `/` but found `@`".to_vec());
    let mismatch = ErrorKind::Diagnostic(Diagnostic::Mismatch {
        expected: DiagnosticTerm::Token(Token::Semicolon),
        found: DiagnosticTerm::Eof,
    });
    assert_eq!(mismatch.describe(source), b"expected `;` but found EOF".to_vec());
    assert_eq!(
        ErrorKind::Simple(Unexpected::Token(Token::Comma)).describe(source),
        b"unexpected `,`".to_vec()
    );
    assert_eq!(ErrorKind::Simple(Unexpected::Eof).describe(source), b"unexpected EOF".to_vec());
    assert_eq!(
        ErrorKind::Diagnostic(Diagnostic::UnclosedDelimiter).describe(source),
        b"unclosed delimiter".to_vec()
    );
    assert_eq!(
        ErrorKind::Diagnostic(Diagnostic::Message { message: "no body" }).describe(source),
        b"no body".to_vec()
    );
    let outside = DiagnosticTerm::Word(dusk::span::Span { start: 5, end: 50 });
    assert_eq!(outside.describe(source), b"\"\"".to_vec());
    assert_eq!(Unexpected::from(None), Unexpected::Eof);
    assert_eq!(Unexpected::from(Some(Token::Dot)), Unexpected::Token(Token::Dot));
}

#[test]
fn errors_are_built() {
    let mut builder = ErrorBuilder::new();
    assert_eq!(builder.build(), None);
    builder.location(dusk::span::Span { start: 1, end: 2 });
    builder.unexpected(Unexpected::Eof);
    let error = builder.build().unwrap();
    assert_eq!(error, Error::new(dusk::span::Span { start: 1, end: 2 }, ErrorKind::Simple(Unexpected::Eof)));
    assert_eq!(builder.build(), None);
    builder.message("text");
    builder.location(dusk::span::Span { start: 0, end: 0 });
    assert_eq!(
        *builder.build().unwrap().details(),
        ErrorKind::Diagnostic(Diagnostic::Message { message: "text" })
    );
    builder.mismatch(DiagnosticTerm::Eof, DiagnosticTerm::Eof);
    assert_eq!(builder.build(), None);
    let (place, _) = error.into_inner();
    assert_eq!(place, error.span());
    assert_eq!(place, error.location);
}

#[test]
fn diagnostics_are_shown_with_their_code() {
    let source = "f(1,\n  2 3)";
    let mut parser = Parser::new(Arc::new(source.to_string()), "call.dusk".to_string());
    let _ = parser.parse_expression();
    assert_eq!(parser.errors().len(), 1);
    let output = parser.report(&parser.errors()[0]).unwrap();
    assert_eq!(
        output.render_text().unwrap(),
        "2:5 in call.dusk\n\n2 |   2 3)\n  |     ^^\nerror: expected `)` but found an integer literal"
    );
    let beyond = Error::eof(dusk::span::Span { start: 90, end: 90 });
    assert!(parser.report(&beyond).is_none());
}

#[test]
fn trees_are_written_as_outlines() {
    let source = "1 + 2";
    let mut parser = Parser::new(Arc::new(source.to_string()), "sum.dusk".to_string());
    let node = parser.parse_expression();
    assert_eq!(
        String::from_utf8(Pretty::new(source).pretty(&node)).unwrap(),
        "\nBinaryExpression\n  Left: 1\n  Operator: Add\n  Right: 2"
    );
    let source = "f(not x, y)";
    let mut parser = Parser::new(Arc::new(source.to_string()), "call.dusk".to_string());
    let node = parser.parse_expression();
    assert_eq!(
        String::from_utf8(Pretty::new(source).pretty(&node)).unwrap(),
        "\nCall\n  Subject: f\n  Arguments: \n    Sequence\n      First: \n        Unary\n          Operator: Not\n          Operand: x\n      Rest: y"
    );
    let mut pretty = Pretty::new(source);
    pretty.write("a");
    pretty.indent = 2;
    pretty.write_line("b");
    assert_eq!(pretty.buffer, b"a\n    b".to_vec());
    assert_eq!(pretty.resolve_span(&dusk::span::Span { start: 2, end: 5 }), b"not".to_vec());
}

#[test]
fn packages_know_their_files() {
    assert_eq!(PackageKind::Binary.filename(), "main.dusk");
    assert_eq!(PackageKind::Library.filename(), "lib.dusk");
    assert_eq!(choose_layout(true, false), Some(Layout::Sibling));
    assert_eq!(choose_layout(false, true), Some(Layout::Nested));
    assert_eq!(choose_layout(true, true), None);
    assert_eq!(choose_layout(false, false), None);
    let source = "module a; 1; module b;";
    let mut parser = Parser::new(Arc::new(source.to_string()), "lib.dusk".to_string());
    let items = parser.parse();
    assert_eq!(
        submodules(&items),
        vec![dusk::span::Span { start: 7, end: 8 }, dusk::span::Span { start: 20, end: 21 }]
    );
}

#[test]
fn a_line_inside_the_underline_is_marked_whole() {
    let text = output("ab\ncd\nef\n", (0, 8), Some((1, 7))).render_text().unwrap();
    assert_eq!(
        text,
        "1:2 in demo.dusk\n\n1 | ab\n  |  ^^\n2 | cd\n  | ^^^\n3 | ef\n  | ^\nerror: something is wrong"
    );
}

#[test]
fn labels_are_coloured_where_colours_are_written() {
    colored::control::set_override(true);
    assert_eq!(OutputKind::Error.colored_label(), "\x1B[91merror\x1B[0m");
    assert_eq!(OutputKind::Warning.colored_label(), "\x1B[93mwarning\x1B[0m");
    assert_eq!(OutputKind::Hint.colored_label(), "\x1B[94mhint\x1B[0m");
    let subject = Output { kind: OutputKind::Error, message: "no".to_string(), context: None };
    assert_eq!(subject.render_colored().unwrap(), b"\x1B[91merror\x1B[0m: no".to_vec());
    colored::control::set_override(false);
    assert_eq!(OutputKind::Error.colored_label(), "error");
    assert_eq!(OutputKind::Warning.colored_label(), "warning");
    assert_eq!(OutputKind::Hint.colored_label(), "hint");
    assert_eq!(subject.render_colored().unwrap(), b"error: no".to_vec());
    colored::control::unset_override();
}
