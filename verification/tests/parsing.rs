use dusk::ast::{AstNode, BinaryOperator, ErrorVariant, PathAccess, UnaryOperator};
use dusk::error::{Diagnostic, DiagnosticTerm, Error, ErrorKind, Unexpected};
use dusk::errors::{token_or_eof, ParseError};
use dusk::parser::Parser;
use dusk::pattern::Pattern;
use dusk::span::{Span, Spanned};
use dusk::token::{Category, Token};
use dusk::token_info::{Associativity, Precedence, TokenInfoExt, CALL, PRODUCT, START, SUM};
use std::sync::Arc;

fn parser(source: &str) -> Parser {
    Parser::new(Arc::new(source.to_string()), "test.dusk".to_string())
}

fn text<'a>(source: &'a str, span: Span) -> &'a str {
    &source[span.start..span.end]
}

fn integer(source: &str, node: &AstNode) -> String {
    match node {
        AstNode::Integer(span) => text(source, *span).to_string(),
        other => panic!("no integer: {:?}", other),
    }
}

fn binary(node: &AstNode) -> (BinaryOperator, &AstNode, &AstNode) {
    match node {
        AstNode::Binary { operator, left, right, .. } => (operator.operator, left, right),
        other => panic!("no binary expression: {:?}", other),
    }
}

#[test]
fn product_binds_tighter_than_sum() {
    let source = "1 + 2 * 3";
    let mut parser = parser(source);
    let node = parser.parse_expression();
    let (operator, left, right) = binary(&node);
    assert_eq!(operator, BinaryOperator::Add);
    assert_eq!(integer(source, left), "1");
    let (inner, second, third) = binary(right);
    assert_eq!(inner, BinaryOperator::Multiply);
    assert_eq!(integer(source, second), "2");
    assert_eq!(integer(source, third), "3");
    assert!(parser.errors().is_empty());
    assert_eq!(node.span(), Span { start: 0, end: 9 });
}

#[test]
fn product_before_sum_groups_first() {
    let source = "1 * 2 + 3";
    let mut parser = parser(source);
    let node = parser.parse_expression();
    let (operator, left, right) = binary(&node);
    assert_eq!(operator, BinaryOperator::Add);
    assert_eq!(integer(source, right), "3");
    let (inner, first, second) = binary(left);
    assert_eq!(inner, BinaryOperator::Multiply);
    assert_eq!(integer(source, first), "1");
    assert_eq!(integer(source, second), "2");
}

#[test]
fn subtraction_groups_from_the_left() {
    let source = "1 - 2 - 3";
    let mut parser = parser(source);
    let node = parser.parse_expression();
    let (operator, left, right) = binary(&node);
    assert_eq!(operator, BinaryOperator::Subtract);
    assert_eq!(integer(source, right), "3");
    let (inner, first, second) = binary(left);
    assert_eq!(inner, BinaryOperator::Subtract);
    assert_eq!(integer(source, first), "1");
    assert_eq!(integer(source, second), "2");
    assert!(parser.errors().is_empty());
}

#[test]
fn paths_group_from_the_right() {
    let source = "a.b.c";
    let mut parser = parser(source);
    let node = parser.parse_expression();
    match &node {
        AstNode::Path { left, access, right, .. } => {
            assert_eq!(*access, PathAccess::Member);
            assert!(matches!(**left, AstNode::Identifier(Span { start: 0, end: 1 })));
            match &**right {
                AstNode::Path { left, right, .. } => {
                    assert!(matches!(**left, AstNode::Identifier(Span { start: 2, end: 3 })));
                    assert!(matches!(**right, AstNode::Identifier(Span { start: 4, end: 5 })));
                }
                other => panic!("no path: {:?}", other),
            }
        }
        other => panic!("no path: {:?}", other),
    }
    assert!(parser.errors().is_empty());
}

#[test]
fn an_expression_with_its_semicolon_is_one_item() {
    let source = "1 + 2 * 3;";
    let mut parser = parser(source);
    let items = parser.parse();
    assert_eq!(items.len(), 1);
    let (operator, left, right) = binary(&items[0]);
    assert_eq!(operator, BinaryOperator::Add);
    assert_eq!(integer(source, left), "1");
    let (inner, second, third) = binary(right);
    assert_eq!(inner, BinaryOperator::Multiply);
    assert_eq!(integer(source, second), "2");
    assert_eq!(integer(source, third), "3");
    assert_eq!(parser.errors().len(), 0);
}

#[test]
fn a_tuple_of_three_is_a_sequence() {
    let source = "(1, 2, 3)";
    let mut parser = parser(source);
    let node = parser.parse_expression();
    assert!(matches!(node, AstNode::Sequence { .. }));
    let mut elements = Vec::new();
    node.flatten_sequence(&mut elements);
    assert_eq!(elements.len(), 3);
    assert_eq!(integer(source, &elements[0]), "1");
    assert_eq!(integer(source, &elements[1]), "2");
    assert_eq!(integer(source, &elements[2]), "3");
    assert_eq!(parser.errors().len(), 0);
    assert!(parser.unclosed_delimiters.is_empty());
}

#[test]
fn one_comma_may_trail() {
    let source = "(1, 2,)";
    let mut parser = parser(source);
    let node = parser.parse_expression();
    let mut elements = Vec::new();
    node.flatten_sequence(&mut elements);
    assert_eq!(elements.len(), 2);
    assert_eq!(parser.errors().len(), 0);
}

#[test]
fn a_call_without_its_end_is_an_error() {
    let source = "foo(";
    let mut parser = parser(source);
    let node = parser.parse_expression();
    parser.add_delimiter_errors();
    assert!(node.is_error());
    assert_eq!(node.span(), Span { start: 0, end: 4 });
    let unclosed: Vec<&Error> = parser
        .errors()
        .iter()
        .filter(|error| error.is_unclosed_delimiter())
        .collect();
    assert_eq!(unclosed.len(), 1);
    assert_eq!(unclosed[0].location, Span { start: 3, end: 4 });
    assert_eq!(parser.errors().len(), 1);
}

#[test]
fn one_open_delimiter_gives_one_diagnostic() {
    let mut parser = parser("(1 + 2");
    let items = parser.parse();
    assert_eq!(items.len(), 1);
    let unclosed: Vec<&Error> = parser
        .errors()
        .iter()
        .filter(|error| error.is_unclosed_delimiter())
        .collect();
    assert_eq!(unclosed.len(), 1);
    assert_eq!(unclosed[0].location, Span { start: 0, end: 1 });
}

#[test]
fn open_delimiters_are_reported_in_the_order_opened() {
    let mut parser = parser("f((");
    let _ = parser.parse_expression();
    parser.add_delimiter_errors();
    let places: Vec<Span> = parser
        .errors()
        .iter()
        .filter(|error| error.is_unclosed_delimiter())
        .map(|error| error.location)
        .collect();
    assert_eq!(places, vec![Span { start: 1, end: 2 }, Span { start: 2, end: 3 }]);
}

#[test]
fn calls_take_their_arguments() {
    let source = "f(1, 2)";
    let mut parser = parser(source);
    let node = parser.parse_expression();
    match node {
        AstNode::Call { span, subject, arguments } => {
            assert_eq!(span, Span { start: 0, end: 7 });
            assert!(matches!(*subject, AstNode::Identifier(_)));
            let mut elements = Vec::new();
            arguments.unwrap().flatten_sequence(&mut elements);
            assert_eq!(elements.len(), 2);
        }
        other => panic!("no call: {:?}", other),
    }
    assert!(parser.errors().is_empty());
    let mut empty = self::parser("f()");
    assert!(matches!(
        empty.parse_expression(),
        AstNode::Call { arguments: None, .. }
    ));
}

#[test]
fn unary_operators_take_one_operand() {
    let source = "not -x";
    let mut parser = parser(source);
    match parser.parse_expression() {
        AstNode::Unary { operator, operand, span } => {
            assert_eq!(operator.operator, UnaryOperator::Not);
            assert_eq!(span, Span { start: 0, end: 6 });
            assert!(matches!(
                *operand,
                AstNode::Unary { .. }
            ));
        }
        other => panic!("no unary expression: {:?}", other),
    }
}

#[test]
fn pairs_and_assignments() {
    let mut first = parser("x: int");
    assert!(matches!(first.parse_expression(), AstNode::Pair { .. }));
    let mut second = parser("x = 1 + 2");
    match second.parse_expression() {
        AstNode::Assignment { value, .. } => assert!(matches!(*value, AstNode::Binary { .. })),
        other => panic!("no assignment: {:?}", other),
    }
    let mut third = parser("true");
    assert!(matches!(third.parse_expression(), AstNode::Bool(_, true)));
}

#[test]
fn test_invalid_tuple() {
    let mut parser = parser("(,);");
    let node = parser.parse_expression();
    assert!(node.is_error());
    assert_eq!(parser.errors().len(), 1);
    assert_eq!(
        parser.errors()[0],
        Error {
            location: Span { start: 1, end: 2 },
            kind: ErrorKind::Diagnostic(Diagnostic::Mismatch {
                expected: DiagnosticTerm::AnyOf(Category::FirstTokenOfExpression),
                found: DiagnosticTerm::Token(Token::Comma),
            }),
        }
    );
}

#[test]
fn test_invalid_trailing_comma() {
    let mut parser = parser("(1,,);");
    let node = parser.parse_expression();
    assert!(matches!(node, AstNode::Sequence { .. }));
    assert_eq!(parser.errors().len(), 1);
    assert!(matches!(
        parser.errors()[0].kind,
        ErrorKind::Diagnostic(Diagnostic::Mismatch {
            found: DiagnosticTerm::Token(Token::Comma),
            ..
        })
    ));
}

#[test]
fn test_no_closing_paren() {
    let mut parser = parser("(1, 1; 1");
    let node = parser.parse_expression();
    parser.add_delimiter_errors();
    assert!(node.is_error());
    assert_eq!(parser.errors().len(), 1);
    assert!(parser.errors()[0].is_unclosed_delimiter());
    assert_eq!(parser.errors()[0].location, Span { start: 0, end: 1 });
}

#[test]
fn deletion_skips_to_the_expected_token() {
    let source = "(1 2 3)";
    let mut parser = parser(source);
    let node = parser.parse_expression();
    assert_eq!(integer(source, &node), "1");
    assert_eq!(parser.position, parser.tokens.len());
    assert_eq!(
        parser.errors().to_vec(),
        vec![Error {
            location: Span { start: 3, end: 7 },
            kind: ErrorKind::Diagnostic(Diagnostic::Mismatch {
                expected: DiagnosticTerm::Token(Token::ClosingParen),
                found: DiagnosticTerm::Token(Token::Integer),
            }),
        }]
    );
    assert!(parser.unclosed_delimiters.is_empty());
}

#[test]
fn deletion_reads_at_least_one_token() {
    let mut parser = parser("1 2 3 4");
    let before = parser.position;
    let result = parser.expect_matches(Pattern::Token(Token::Semicolon));
    assert!(result.is_err());
    assert_eq!(parser.position, before + 1);
    assert!(parser.errors().is_empty());
    let mut found = self::parser("1 2 ; 4");
    let result = found.expect_matches(Pattern::Token(Token::Semicolon));
    assert_eq!(result.unwrap().kind(), Token::Semicolon);
    assert_eq!(found.position, 3);
    assert_eq!(found.errors().len(), 1);
    assert_eq!(found.errors()[0].location, Span { start: 0, end: 5 });
}

#[test]
fn deletion_gives_up_behind_the_limit() {
    let mut source = String::new();
    for _ in 0..20 {
        source.push_str("x ");
    }
    source.push(';');
    let mut parser = parser(&source);
    let result = parser.expect_matches(Pattern::Token(Token::Semicolon));
    assert!(result.is_err());
    assert_eq!(parser.position, 1);
}

#[test]
fn insertion_takes_the_expected_token_as_present() {
    let mut parser = parser("1 + 2 fn f();");
    let items = parser.parse();
    assert_eq!(items.len(), 2);
    assert!(matches!(items[0], AstNode::Binary { .. }));
    assert!(matches!(items[1], AstNode::Function { body: None, parameters: None, .. }));
    assert_eq!(
        parser.errors().to_vec(),
        vec![Error {
            location: Span { start: 6, end: 8 },
            kind: ErrorKind::Diagnostic(Diagnostic::Mismatch {
                expected: DiagnosticTerm::Token(Token::Semicolon),
                found: DiagnosticTerm::Token(Token::Function),
            }),
        }]
    );
}

#[test]
fn malformed_input_is_read_to_its_end() {
    for source in ["+ + + ) ) ;", "((((", "}}}}", ",,,,", "fn fn fn", "# # [", "1 +", "@ @ @", "struct {"] {
        let mut parser = parser(source);
        let _ = parser.parse();
        assert_eq!(parser.position, parser.tokens.len());
        assert!(!parser.errors().is_empty());
    }
}

#[test]
fn end_of_input_is_an_error() {
    let mut parser = parser("");
    let node = parser.parse_expression();
    assert!(node.is_error());
    assert_eq!(
        parser.errors().to_vec(),
        vec![Error {
            location: Span { start: 0, end: 0 },
            kind: ErrorKind::Simple(Unexpected::Eof),
        }]
    );
    assert!(parser.parse().is_empty());
}

#[test]
fn a_bracket_begins_no_expression() {
    let mut parser = parser("[");
    let node = parser.parse_expression();
    assert!(node.is_error());
    assert_eq!(parser.errors().len(), 1);
    assert!(matches!(
        parser.errors()[0].kind,
        ErrorKind::Diagnostic(Diagnostic::Mismatch {
            expected: DiagnosticTerm::AnyOf(Category::FirstTokenOfExpression),
            found: DiagnosticTerm::Token(Token::OpeningBracket),
        })
    ));
}

#[test]
fn items_are_read() {
    let source = "module util; struct Point { x: int, y: int } #[inline] fn add(a: int, b: int) -> int { a + b; } #![cfg]";
    let mut parser = parser(source);
    let items = parser.parse();
    assert_eq!(parser.errors().to_vec(), vec![]);
    assert_eq!(items.len(), 4);
    match &items[0] {
        AstNode::Module { name, .. } => assert_eq!(text(source, *name), "util"),
        other => panic!("no module: {:?}", other),
    }
    match &items[1] {
        AstNode::Struct { name, fields, .. } => {
            assert_eq!(text(source, *name), "Point");
            assert!(matches!(**fields, AstNode::Sequence { .. }));
        }
        other => panic!("no struct: {:?}", other),
    }
    match &items[2] {
        AstNode::ItemMetadata { subject, .. } => match &**subject {
            AstNode::Function { name, parameters, return_type, body, .. } => {
                assert_eq!(text(source, *name), "add");
                assert!(parameters.is_some());
                assert!(return_type.is_some());
                match body.as_deref() {
                    Some(AstNode::Block { items: Some(_), .. }) => {}
                    other => panic!("no body: {:?}", other),
                }
            }
            other => panic!("no function: {:?}", other),
        },
        other => panic!("no metadata: {:?}", other),
    }
    assert!(matches!(items[3], AstNode::ModuleMetadata { .. }));
}

#[test]
fn a_missing_function_body_is_reported() {
    let mut parser = parser("fn f() 1");
    let items = parser.parse();
    assert!(items[0].is_error());
    assert_eq!(
        parser.errors()[0],
        Error {
            location: Span { start: 7, end: 8 },
            kind: ErrorKind::Simple(Unexpected::Token(Token::Integer)),
        }
    );
}

#[test]
fn attempts_leave_the_parser_as_it_was() {
    let mut parser = parser("1 2");
    assert!(parser.try_matches(Pattern::Token(Token::Arrow)).is_none());
    assert_eq!(parser.position, 0);
    let saved = parser.checkpoint();
    let _ = parser.expect_matches(Pattern::Token(Token::Semicolon));
    let _ = parser.parse_expression();
    let _ = parser.parse_expression();
    assert!(parser.position > 0);
    assert!(!parser.errors().is_empty());
    parser.restore(saved);
    assert_eq!(parser.position, 0);
    assert!(parser.errors().is_empty());
    assert!(parser.try_matches(Pattern::Token(Token::Integer)).is_some());
    assert_eq!(parser.position, 1);
}

#[test]
fn peeking_reads_nothing() {
    let mut parser = parser("x y");
    assert_eq!(parser.peek().unwrap().kind(), Token::Identifier);
    assert_eq!(parser.position, 0);
    assert!(parser.peek_matches(Pattern::Token(Token::Identifier)).is_ok());
    assert!(parser.peek_matches(Pattern::AnyOf(Category::Literal)).is_err());
    let cursor = parser.cursor();
    assert_eq!(parser.next().unwrap().span(), Span { start: 0, end: 1 });
    assert_eq!(parser.next().unwrap().span(), Span { start: 2, end: 3 });
    assert_eq!(parser.measure(cursor), Span { start: 0, end: 3 });
    assert!(parser.next().is_err());
    assert_eq!(parser.span(), Span { start: 2, end: 3 });
    assert_eq!(parser.source(), "x y");
}

#[test]
fn precedences_are_ordered() {
    assert_eq!(Token::Plus.precedence(), Precedence(SUM));
    assert_eq!(Token::Asterisk.precedence(), Precedence(PRODUCT));
    assert_eq!(Token::OpeningParen.precedence(), Precedence(CALL));
    assert_eq!(Token::Semicolon.precedence(), Precedence(START));
    assert!(Precedence(SUM).below(Precedence(PRODUCT)));
    assert_eq!(Token::Plus.associativity(), Associativity::Left);
    assert_eq!(Token::Comma.associativity(), Associativity::Right);
    assert_eq!(Precedence(SUM).with(Associativity::Left), Precedence(SUM));
    assert_eq!(Precedence(SUM).with(Associativity::Right), Precedence(SUM - 1));
    assert_eq!(Precedence(SUM).up(), Precedence(SUM + 1));
    assert_eq!(Precedence(SUM).down(), Precedence(SUM - 1));
}

#[test]
fn spans_unite() {
    let first = Span::new(2, 5);
    let second = Span::new(4, 9);
    assert_eq!(first.union(second), Span { start: 2, end: 9 });
    assert_eq!(second.union(first), Span { start: 2, end: 9 });
    assert_eq!(first.as_range(), 2..5);
    assert_eq!(first.start(), 2);
    assert_eq!(first.end(), 5);
}

#[test]
fn operators_come_from_tokens() {
    assert_eq!(UnaryOperator::try_from(Token::Not).unwrap(), UnaryOperator::Not);
    assert_eq!(BinaryOperator::try_from(Token::Slash).unwrap(), BinaryOperator::Divide);
    let error = BinaryOperator::try_from(Token::Comma).unwrap_err();
    assert_eq!(error.token(), Token::Comma);
    assert_eq!(error.target_name(), "BinaryOperator");
    let error = UnaryOperator::try_from(Token::Asterisk).unwrap_err();
    assert_eq!(error.target_name(), "UnaryOperator");
    assert_eq!(AstNode::Error(Span { start: 0, end: 0 }).name(), "error");
    assert_eq!(AstNode::Integer(Span { start: 0, end: 1 }).name(), "integer literal");
    assert!(AstNode::error(Span { start: 0, end: 0 }).is_error());
}

#[test]
fn the_first_problem_stops_a_strict_caller() {
    let mut first = parser("(,);");
    let _ = first.parse_expression();
    assert_eq!(
        ParseError::from_error(&first.errors()[0]),
        ParseError::Unexpected(Some(Token::Comma))
    );
    let mut second = parser("(1,,);");
    let _ = second.parse_expression();
    assert_eq!(
        ParseError::from_error(&second.errors()[0]),
        ParseError::Unexpected(Some(Token::Comma))
    );
    let mut third = parser("(1 2 3)");
    let _ = third.parse_expression();
    assert_eq!(
        ParseError::from_error(&third.errors()[0]),
        ParseError::expected(Token::ClosingParen, Some(Token::Integer))
    );
    assert_eq!(ParseError::eof(), ParseError::Unexpected(None));
    assert_eq!(ParseError::unexpected_token(Token::Dot), ParseError::Unexpected(Some(Token::Dot)));
    assert_eq!(ParseError::eof().describe(), "Unexpected EOF");
    assert_eq!(
        ParseError::expected(Token::Comma, Some(Token::Semicolon)).describe(),
        "Expected `,`, but found `;`"
    );
    assert_eq!(token_or_eof(&None), "EOF");
    assert_eq!(token_or_eof(&Some(Token::Not)), "the keyword `not`");
}

#[test]
fn diagnostics_can_be_had_by_position() {
    let mut parser = parser("(a b");
    let _ = parser.parse();
    let made: Vec<Span> = parser.errors().iter().map(|error| error.location).collect();
    assert_eq!(made, vec![Span { start: 4, end: 4 }, Span { start: 0, end: 1 }]);
    let sorted = parser.sorted_errors();
    assert_eq!(sorted.len(), 2);
    assert!(sorted[0].is_unclosed_delimiter());
    assert_eq!(sorted[0].location, Span { start: 0, end: 1 });
    assert_eq!(sorted[1].kind, ErrorKind::Simple(Unexpected::Eof));
    let mut stable = self::parser("");
    stable.errors.push(Error::eof(Span { start: 3, end: 3 }));
    stable.errors.push(Error::unclosed(Span { start: 1, end: 2 }));
    stable.errors.push(Error::unclosed(Span { start: 3, end: 4 }));
    stable.errors.push(Error::eof(Span { start: 1, end: 1 }));
    let sorted = stable.sorted_errors();
    assert_eq!(
        sorted,
        vec![
            Error::unclosed(Span { start: 1, end: 2 }),
            Error::eof(Span { start: 1, end: 1 }),
            Error::eof(Span { start: 3, end: 3 }),
            Error::unclosed(Span { start: 3, end: 4 }),
        ]
    );
}
