use crate::ast::{atom, atom_of, binary_of, unary_of, AssignmentType, AstNode, BinaryOperator, OperatorInfo, PathAccess, UnaryOperator};
use crate::error::{
    mismatch, unclosed, unexpected_eof, Diagnostic, DiagnosticTerm, Error, ErrorKind,
};
use crate::pattern::Pattern;
use crate::span::{Span, Spanned, SpannedToken};
use crate::token::{Category, Token};
use crate::token_info::{
    binding_power, infix_precedence, Precedence, TokenInfoExt, PAIR, POSTFIX, PREFIX, SEQUENCE,
    START, STATEMENT,
};
use std::sync::Arc;
use vstd::prelude::*;

verus! {

/// The number of tokens behind an unexpected one among which the expected
/// one is looked for.
pub const RECOVERY_LIMIT: usize = 16;

/// What a parser has done so far: how many tokens it has read, the
/// diagnostics it has made, and the brackets that are open.
pub struct State {
    pub position: nat,
    pub errors: Seq<Error>,
    pub unclosed: Seq<SpannedToken>,
}

impl State {
    /// This state at another token.
    pub open spec fn at(self, position: nat) -> State {
        State { position, errors: self.errors, unclosed: self.unclosed }
    }

    /// This state with one more diagnostic.
    pub open spec fn with_error(self, error: Error) -> State {
        State {
            position: self.position,
            errors: self.errors.push(error),
            unclosed: self.unclosed,
        }
    }

    /// This state with one more open bracket.
    pub open spec fn opened(self, token: SpannedToken) -> State {
        State {
            position: self.position,
            errors: self.errors,
            unclosed: self.unclosed.push(token),
        }
    }

    /// This state without the bracket that was opened last.
    pub open spec fn closed(self) -> State {
        State {
            position: self.position,
            errors: self.errors,
            unclosed: if self.unclosed.len() > 0 {
                self.unclosed.drop_last()
            } else {
                self.unclosed
            },
        }
    }
}

/// The empty span behind the last token.
pub open spec fn end_span(tokens: Seq<SpannedToken>) -> Span {
    if tokens.len() == 0 {
        Span { start: 0, end: 0 }
    } else {
        Span { start: tokens.last().0.end, end: tokens.last().0.end }
    }
}

/// The token at `position`, or the error for the end of the source.
pub open spec fn peek_at(tokens: Seq<SpannedToken>, position: nat) -> Result<SpannedToken, Error> {
    if position < tokens.len() {
        Ok(tokens[position as int])
    } else {
        Err(unexpected_eof(end_span(tokens)))
    }
}

/// Where the search for an expected token ends that begins at `position`.
pub open spec fn recovery_end(tokens: Seq<SpannedToken>, position: nat) -> nat {
    if tokens.len() - position > RECOVERY_LIMIT {
        position + RECOVERY_LIMIT as nat
    } else {
        tokens.len()
    }
}

/// The first place from `from` up to `to` at which a token stands that
/// `pattern` accepts.
pub open spec fn first_match(tokens: Seq<SpannedToken>, pattern: Pattern, from: nat, to: nat) -> Option<
    nat,
>
    decreases to - from,
{
    if from >= to || from >= tokens.len() {
        None
    } else if pattern.accepts(tokens[from as int].1) {
        Some(from)
    } else {
        first_match(tokens, pattern, from + 1, to)
    }
}

/// Recovery by deletion. The unexpected token `first` was read, and `st`
/// stands behind it. Where a token that `pattern` accepts follows within
/// the limit, the tokens before it are skipped, it is read, and one
/// diagnostic is made for the skipped run. Otherwise the mismatch is the
/// error, and only `first` was read.
pub open spec fn deletion(
    tokens: Seq<SpannedToken>,
    st: State,
    pattern: Pattern,
    first: SpannedToken,
) -> (Result<SpannedToken, Error>, State) {
    match first_match(tokens, pattern, st.position, recovery_end(tokens, st.position)) {
        Some(place) => (
            Ok(tokens[place as int]),
            st.at(place + 1).with_error(
                mismatch(first.0.spec_union(tokens[place as int].0), pattern.term(), first),
            ),
        ),
        None => (Err(mismatch(first.0, pattern.term(), first)), st),
    }
}

/// Reads a token that `pattern` accepts, and recovers by deletion where
/// another token stands there. At the end of the source nothing is read.
pub open spec fn expect(tokens: Seq<SpannedToken>, st: State, pattern: Pattern) -> (
    Result<SpannedToken, Error>,
    State,
) {
    match peek_at(tokens, st.position) {
        Err(error) => (Err(error), st),
        Ok(first) => if pattern.accepts(first.1) {
            (Ok(first), st.at(st.position + 1))
        } else {
            deletion(tokens, st.at(st.position + 1), pattern, first)
        },
    }
}

/// Reads a token that `pattern` accepts. Where instead a token stands that
/// `recover` accepts, recovers by insertion: the expected token is taken as
/// present, nothing is read, and one diagnostic is made. Otherwise recovers
/// by deletion.
pub open spec fn expect_or_insert(
    tokens: Seq<SpannedToken>,
    st: State,
    pattern: Pattern,
    recover: Pattern,
) -> (Result<SpannedToken, Error>, State) {
    match peek_at(tokens, st.position) {
        Err(error) => (Err(error), st),
        Ok(first) => if pattern.accepts(first.1) {
            (Ok(first), st.at(st.position + 1))
        } else if recover.accepts(first.1) {
            (Ok(first), st.with_error(mismatch(first.0, pattern.term(), first)))
        } else {
            deletion(tokens, st.at(st.position + 1), pattern, first)
        },
    }
}

/// An expression: a prefix, and then every operator that binds tighter
/// than `min` with its right operand.
pub open spec fn expression(tokens: Seq<SpannedToken>, st: State, min: u32) -> (AstNode, State)
    decreases tokens.len() - st.position, 3nat,
{
    let found = expect(tokens, st, Pattern::AnyOf(Category::FirstTokenOfExpression));
    match found.0 {
        Err(error) => (AstNode::Error(error.location), found.1.with_error(error)),
        Ok(token) => if st.position < found.1.position <= tokens.len() {
            let left = prefix(tokens, found.1, token);
            if found.1.position <= left.1.position <= tokens.len() {
                infix_chain(tokens, left.1, left.0, min)
            } else {
                left
            }
        } else {
            (AstNode::Error(token.0), found.1)
        },
    }
}

/// What begins with `token`, which was read: an expression in
/// parentheses, an operator with its operand, or a leaf.
pub open spec fn prefix(tokens: Seq<SpannedToken>, st: State, token: SpannedToken) -> (
    AstNode,
    State,
)
    decreases tokens.len() - st.position, 4nat,
{
    if token.1 == Token::OpeningParen {
        let inner = expression(tokens, st.opened(token), START);
        let close = expect(tokens, inner.1, Pattern::Token(Token::ClosingParen));
        match close.0 {
            Ok(_) => (inner.0, close.1.closed()),
            Err(error) => (AstNode::Error(token.0.spec_union(error.location)), close.1),
        }
    } else if unary_of(token.1) is Some {
        let operand = expression(tokens, st, PREFIX);
        (
            AstNode::Unary {
                span: token.0.spec_union(operand.0.spec_span()),
                operator: OperatorInfo { operator: unary_of(token.1).unwrap(), span: token.0 },
                operand: Box::new(operand.0),
            },
            operand.1,
        )
    } else {
        match atom_of(token) {
            Some(node) => (node, st),
            None => (
                AstNode::Error(token.0),
                st.with_error(
                    mismatch(
                        token.0,
                        DiagnosticTerm::AnyOf(Category::FirstTokenOfExpression),
                        token,
                    ),
                ),
            ),
        }
    }
}

/// The operators behind `left` that bind tighter than `min`, each with its
/// right operand.
pub open spec fn infix_chain(tokens: Seq<SpannedToken>, st: State, left: AstNode, min: u32) -> (
    AstNode,
    State,
)
    decreases tokens.len() - st.position, 2nat,
{
    match peek_at(tokens, st.position) {
        Ok(token) => if min < infix_precedence(token.1).0 {
            let node = infix(tokens, st.at(st.position + 1), left, token);
            if st.position < node.1.position <= tokens.len() {
                infix_chain(tokens, node.1, node.0, min)
            } else {
                node
            }
        } else {
            (left, st)
        },
        Err(_) => (left, st),
    }
}

/// What `left` and the operator `token`, which was read, begin.
pub open spec fn infix(tokens: Seq<SpannedToken>, st: State, left: AstNode, token: SpannedToken) -> (
    AstNode,
    State,
)
    decreases tokens.len() - st.position, 5nat,
{
    if token.1 == Token::OpeningParen {
        let open = st.opened(token);
        let arguments: (Option<Box<AstNode>>, State) = match peek_at(tokens, st.position) {
            Err(_) => (None, open),
            Ok(next) => if next.1 == Token::ClosingParen {
                (None, open)
            } else {
                let inner = expression(tokens, open, START);
                (Some(Box::new(inner.0)), inner.1)
            },
        };
        let close = expect(tokens, arguments.1, Pattern::Token(Token::ClosingParen));
        match close.0 {
            Ok(end) => (
                AstNode::Call {
                    span: left.spec_span().spec_union(end.0),
                    subject: Box::new(left),
                    arguments: arguments.0,
                },
                close.1.closed(),
            ),
            Err(error) => (
                AstNode::Error(left.spec_span().spec_union(error.location)),
                close.1,
            ),
        }
    } else if token.1.in_category(Category::Path) {
        let right = expression(tokens, st, (POSTFIX - 1) as u32);
        (
            AstNode::Path {
                span: left.spec_span().spec_union(right.0.spec_span()),
                left: Box::new(left),
                access: if token.1 == Token::Dot {
                    PathAccess::Member
                } else {
                    PathAccess::Scope
                },
                right: Box::new(right.0),
            },
            right.1,
        )
    } else if binary_of(token.1) is Some {
        let right = expression(tokens, st, binding_power(token.1).0);
        (
            AstNode::Binary {
                span: left.spec_span().spec_union(right.0.spec_span()),
                operator: OperatorInfo { operator: binary_of(token.1).unwrap(), span: token.0 },
                left: Box::new(left),
                right: Box::new(right.0),
            },
            right.1,
        )
    } else if token.1 == Token::Colon {
        let right = expression(tokens, st, PAIR);
        (
            AstNode::Pair {
                span: left.spec_span().spec_union(right.0.spec_span()),
                left: Box::new(left),
                right: Box::new(right.0),
            },
            right.1,
        )
    } else if token.1 == Token::Comma {
        let stops = match peek_at(tokens, st.position) {
            Ok(next) => next.1.in_category(Category::ClosingBracket),
            Err(_) => false,
        };
        if stops {
            (
                AstNode::Sequence {
                    span: left.spec_span().spec_union(token.0),
                    left: Box::new(left),
                    right: None,
                },
                st,
            )
        } else {
            let right = expression(tokens, st, (SEQUENCE - 1) as u32);
            (
                AstNode::Sequence {
                    span: left.spec_span().spec_union(right.0.spec_span()),
                    left: Box::new(left),
                    right: Some(Box::new(right.0)),
                },
                right.1,
            )
        }
    } else if token.1 == Token::Equals {
        let right = expression(tokens, st, STATEMENT);
        (
            AstNode::Assignment {
                span: left.spec_span().spec_union(right.0.spec_span()),
                ty: AssignmentType::Value,
                pattern: Box::new(left),
                value: Box::new(right.0),
            },
            right.1,
        )
    } else {
        (AstNode::Error(token.0), st)
    }
}

/// One diagnostic for each bracket of `open`, in the order in which they
/// were opened, each at the place of its bracket.
pub open spec fn unclosed_errors(open: Seq<SpannedToken>) -> Seq<Error> {
    Seq::new(open.len(), |i: int| unclosed(open[i].0))
}

/// Whether `after` is `before` with diagnostics added behind it, none of
/// them for an open bracket.
pub open spec fn grown(before: Seq<Error>, after: Seq<Error>) -> bool {
    &&& before.len() <= after.len()
    &&& forall|i: int| 0 <= i < before.len() ==> #[trigger] after[i] == before[i]
    &&& forall|i: int|
        before.len() <= i < after.len() ==> (#[trigger] after[i]).kind != ErrorKind::Diagnostic(
            Diagnostic::UnclosedDelimiter,
        )
}

/// A parser over the tokens of one source text.
pub struct Parser {
    /// The text that is read.
    pub source: Arc<String>,
    /// The name of the file that the text is from, for the diagnostics.
    pub filename: String,
    pub tokens: Vec<SpannedToken>,
    pub position: usize,
    pub errors: Vec<Error>,
    pub unclosed_delimiters: Vec<SpannedToken>,
}

/// A place among the tokens, to come back to.
#[derive(Debug, Clone, Copy)]
pub struct Cursor(pub usize);

impl Parser {
    /// What this parser has done so far.
    pub open spec fn state(&self) -> State {
        State {
            position: self.position as nat,
            errors: self.errors@,
            unclosed: self.unclosed_delimiters@,
        }
    }

    /// The parser stands at a token or behind the last.
    pub open spec fn wf(&self) -> bool {
        self.position <= self.tokens@.len()
    }

    /// `after` reads the same text and tokens as `before`.
    pub open spec fn same_input(before: &Parser, after: &Parser) -> bool {
        &&& after.tokens == before.tokens
        &&& after.source == before.source
        &&& after.filename == before.filename
    }

    /// `after` reads the same tokens as `before`, has not gone back, and
    /// has kept every diagnostic of `before`. What it has added says nothing
    /// of open brackets: those are reported once, when all is read.
    pub open spec fn steps(before: &Parser, after: &Parser) -> bool {
        &&& Parser::same_input(before, after)
        &&& grown(before.errors@, after.errors@)
        &&& before.position <= after.position <= after.tokens@.len()
    }

    /// A parser at the first of `tokens`, with no diagnostic and no open
    /// bracket.
    pub fn from_tokens(source: Arc<String>, filename: String, tokens: Vec<SpannedToken>) -> (result:
        Parser)
        ensures
            result.wf(),
            result.source == source,
            result.filename == filename,
            result.tokens == tokens,
            result.state() == (State {
                position: 0,
                errors: Seq::empty(),
                unclosed: Seq::empty(),
            }),
    {
        Parser {
            source,
            filename,
            tokens,
            position: 0,
            errors: Vec::new(),
            unclosed_delimiters: Vec::new(),
        }
    }

    /// The empty span behind the last token.
    pub fn end(&self) -> (result: Span)
        ensures
            result == end_span(self.tokens@),
    {
        let count = self.tokens.len();
        if count == 0 {
            Span { start: 0, end: 0 }
        } else {
            let last = self.tokens[count - 1].0.end;
            Span { start: last, end: last }
        }
    }

    /// The span of the token that was read last, or the empty span at the
    /// start where none was read.
    pub fn span(&self) -> (result: Span)
        requires
            self.wf(),
        ensures
            result == if self.position == 0 {
                Span { start: 0, end: 0 }
            } else {
                self.tokens@[self.position - 1].0
            },
    {
        if self.position == 0 {
            Span { start: 0, end: 0 }
        } else {
            self.tokens[self.position - 1].0
        }
    }

    /// The next token, which is not read.
    pub fn peek(&self) -> (result: Result<SpannedToken, Error>)
        requires
            self.wf(),
        ensures
            result == peek_at(self.tokens@, self.position as nat),
    {
        if self.position < self.tokens.len() {
            Ok(self.tokens[self.position])
        } else {
            Err(Error::eof(self.end()))
        }
    }

    /// Reads the next token.
    pub fn next(&mut self) -> (result: Result<SpannedToken, Error>)
        requires
            old(self).wf(),
        ensures
            Parser::steps(old(self), final(self)),
            result == peek_at(old(self).tokens@, old(self).position as nat),
            final(self).state() == if result is Ok {
                old(self).state().at((old(self).position + 1) as nat)
            } else {
                old(self).state()
            },
    {
        if self.position < self.tokens.len() {
            let token = self.tokens[self.position];
            self.position = self.position + 1;
            Ok(token)
        } else {
            Err(Error::eof(self.end()))
        }
    }

    /// The next token if `expected` accepts it, and else the mismatch.
    /// Nothing is read.
    pub fn peek_matches(&self, expected: Pattern) -> (result: Result<SpannedToken, Error>)
        requires
            self.wf(),
        ensures
            result == match peek_at(self.tokens@, self.position as nat) {
                Ok(token) => if expected.accepts(token.1) {
                    Ok(token)
                } else {
                    Err(mismatch(token.0, expected.term(), token))
                },
                Err(error) => Err(error),
            },
    {
        match self.peek() {
            Ok(token) => expected.match_pattern(token),
            Err(error) => Err(error),
        }
    }

    /// A place to measure from: where the next token starts.
    pub fn cursor(&self) -> (result: Cursor)
        requires
            self.wf(),
        ensures
            result.0 == match peek_at(self.tokens@, self.position as nat) {
                Ok(token) => token.0.start,
                Err(error) => error.location.start,
            },
    {
        match self.peek() {
            Ok(token) => Cursor(token.0.start),
            Err(error) => Cursor(error.location.start),
        }
    }

    /// The span from `cursor` to the end of the token that was read last,
    /// and the empty span at `cursor` where that token ends before it.
    pub fn measure(&self, cursor: Cursor) -> (result: Span)
        requires
            self.wf(),
        ensures
            result.start == cursor.0,
            result.wf(),
            self.position > 0 && self.tokens@[self.position - 1].0.end >= cursor.0 ==> result.end
                == self.tokens@[self.position - 1].0.end,
            !(self.position > 0 && self.tokens@[self.position - 1].0.end >= cursor.0)
                ==> result.end == cursor.0,
    {
        let last = self.span();
        if self.position > 0 && last.end >= cursor.0 {
            Span { start: cursor.0, end: last.end }
        } else {
            Span { start: cursor.0, end: cursor.0 }
        }
    }

    /// The diagnostics made so far.
    pub fn errors(&self) -> (result: &[Error])
        ensures
            result@ == self.errors@,
    {
        self.errors.as_slice()
    }

    /// The first place from `from` up to `to` at which a token stands that
    /// `pattern` accepts.
    fn find(&self, pattern: Pattern, from: usize, to: usize) -> (result: Option<usize>)
        requires
            from <= to <= self.tokens@.len(),
        ensures
            match result {
                Some(place) => first_match(self.tokens@, pattern, from as nat, to as nat) == Some(
                    place as nat,
                ) && from <= place < to,
                None => first_match(self.tokens@, pattern, from as nat, to as nat) is None,
            },
    {
        let mut place: usize = from;
        while place < to
            invariant
                from <= place <= to <= self.tokens@.len(),
                first_match(self.tokens@, pattern, place as nat, to as nat) == first_match(
                    self.tokens@,
                    pattern,
                    from as nat,
                    to as nat,
                ),
            decreases to - place,
        {
            if pattern.matches(self.tokens[place].1) {
                return Some(place);
            }
            place += 1;
        }
        None
    }

    /// Recovery by deletion: `first` was read and is not what `expected`
    /// accepts. Where a token that `expected` accepts follows within the
    /// limit, the tokens before it are skipped, it is read, and one
    /// diagnostic is made that spans the skipped run. Otherwise the mismatch
    /// comes back, and nothing more is read.
    pub fn recover_with_token_deletion(&mut self, first: SpannedToken, expected: Pattern) -> (result:
        Result<SpannedToken, Error>)
        requires
            old(self).wf(),
        ensures
            Parser::steps(old(self), final(self)),
            (result, final(self).state()) == deletion(
                old(self).tokens@,
                old(self).state(),
                expected,
                first,
            ),
            result is Ok ==> final(self).position > old(self).position,
    {
        let count = self.tokens.len();
        let to: usize = if count - self.position > RECOVERY_LIMIT {
            self.position + RECOVERY_LIMIT
        } else {
            count
        };
        match self.find(expected, self.position, to) {
            Some(place) => {
                let token = self.tokens[place];
                self.position = place + 1;
                self.errors.push(
                    Error::mismatch(first.0.union(token.0), expected.into_diagnostic(), first),
                );
                Ok(token)
            },
            None => Err(Error::mismatch(first.0, expected.into_diagnostic(), first)),
        }
    }

    /// Reads a token that `expected` accepts, and recovers by deletion
    /// where another token stands there. Whenever a token is left, at least
    /// one is read.
    pub fn expect_matches(&mut self, expected: Pattern) -> (result: Result<SpannedToken, Error>)
        requires
            old(self).wf(),
        ensures
            Parser::steps(old(self), final(self)),
            (result, final(self).state()) == expect(
                old(self).tokens@,
                old(self).state(),
                expected,
            ),
            old(self).position < old(self).tokens@.len() ==> final(self).position > old(
                self,
            ).position,
            result is Ok ==> final(self).position > old(self).position,
    {
        let first = match self.next() {
            Ok(first) => first,
            Err(error) => {
                return Err(error);
            },
        };
        if expected.matches(first.1) {
            Ok(first)
        } else {
            self.recover_with_token_deletion(first, expected)
        }
    }

    /// Reads a token that `expected` accepts. Where instead a token stands
    /// that `recover` accepts, the expected token is taken as present:
    /// nothing is read, one diagnostic is made, and the token that stands
    /// there comes back. Otherwise recovers by deletion.
    pub fn expect_matches_or_recover_with(&mut self, expected: Pattern, recover: Pattern) -> (result:
        Result<SpannedToken, Error>)
        requires
            old(self).wf(),
        ensures
            Parser::steps(old(self), final(self)),
            (result, final(self).state()) == expect_or_insert(
                old(self).tokens@,
                old(self).state(),
                expected,
                recover,
            ),
    {
        if self.position >= self.tokens.len() {
            return Err(Error::eof(self.end()));
        }
        let first = self.tokens[self.position];
        if expected.matches(first.1) {
            self.position = self.position + 1;
            Ok(first)
        } else if recover.matches(first.1) {
            self.errors.push(Error::mismatch(first.0, expected.into_diagnostic(), first));
            Ok(first)
        } else {
            self.position = self.position + 1;
            self.recover_with_token_deletion(first, expected)
        }
    }

    /// Whether an operator follows that binds tighter than `precedence`.
    pub fn can_continue(&self, precedence: Precedence) -> (result: bool)
        requires
            self.wf(),
        ensures
            result == match peek_at(self.tokens@, self.position as nat) {
                Ok(token) => precedence.0 < infix_precedence(token.1).0,
                Err(_) => false,
            },
    {
        if self.position < self.tokens.len() {
            precedence.below(self.tokens[self.position].1.precedence())
        } else {
            false
        }
    }

    /// Reads an expression: a prefix, and then every operator that binds
    /// tighter than `precedence` with its right operand. There is always a
    /// node: where no expression stands, it is an error node, and a
    /// diagnostic says why.
    pub fn parse_expression_with(&mut self, precedence: Precedence) -> (result: AstNode)
        requires
            old(self).wf(),
        ensures
            Parser::steps(old(self), final(self)),
            (result, final(self).state()) == expression(
                old(self).tokens@,
                old(self).state(),
                precedence.0,
            ),
            old(self).position < old(self).tokens@.len() ==> final(self).position > old(
                self,
            ).position,
        decreases old(self).tokens@.len() - old(self).position, 30nat,
    {
        let token = match self.expect_matches(Pattern::AnyOf(Category::FirstTokenOfExpression)) {
            Ok(token) => token,
            Err(error) => {
                let span = error.location;
                self.errors.push(error);
                return AstNode::Error(span);
            },
        };
        let mut left = self.parse_prefix(token);
        let ghost tokens = self.tokens@;
        let ghost whole = infix_chain(tokens, self.state(), left, precedence.0);
        while self.can_continue(precedence)
            invariant
                Parser::steps(old(self), self),
                tokens == self.tokens@,
                old(self).position < self.position,
                whole == infix_chain(tokens, self.state(), left, precedence.0),
            decreases self.tokens@.len() - self.position,
        {
            let count = self.tokens.len();
            assert(self.position < count);
            let operator = self.tokens[self.position];
            self.position = self.position + 1;
            left = self.parse_infix(left, operator);
        }
        left
    }

    /// Reads what begins with `token`, which was read: an expression in
    /// parentheses, an operator with its operand, or a leaf. A token with
    /// which no expression begins gives an error node and a diagnostic.
    pub fn parse_prefix(&mut self, token: SpannedToken) -> (result: AstNode)
        requires
            old(self).wf(),
        ensures
            Parser::steps(old(self), final(self)),
            (result, final(self).state()) == prefix(old(self).tokens@, old(self).state(), token),
        decreases old(self).tokens@.len() - old(self).position, 40nat,
    {
        if token.1 == Token::OpeningParen {
            self.parse_parenthesized_expression(token)
        } else {
            match UnaryOperator::try_from(token.1) {
                Ok(operator) => self.parse_unary(token, operator),
                Err(_) => match atom(token) {
                    Some(node) => node,
                    None => {
                        self.errors.push(
                            Error::mismatch(
                                token.0,
                                DiagnosticTerm::AnyOf(Category::FirstTokenOfExpression),
                                token,
                            ),
                        );
                        AstNode::Error(token.0)
                    },
                },
            }
        }
    }

    /// Reads the operand of the unary operator `token`, which was read.
    pub fn parse_unary(&mut self, token: SpannedToken, operator: UnaryOperator) -> (result: AstNode)
        requires
            old(self).wf(),
            token.1 != Token::OpeningParen,
            unary_of(token.1) == Some(operator),
        ensures
            Parser::steps(old(self), final(self)),
            (result, final(self).state()) == prefix(old(self).tokens@, old(self).state(), token),
        decreases old(self).tokens@.len() - old(self).position, 35nat,
    {
        let operand = self.parse_expression_with(Precedence(PREFIX));
        AstNode::Unary {
            span: token.0.union(operand.span()),
            operator: OperatorInfo { operator, span: token.0 },
            operand: Box::new(operand),
        }
    }

    /// Reads an expression and the parenthesis that closes it. `token` is
    /// the opening parenthesis, which was read. It is held as open until
    /// its partner is read: where that is missing, the node is an error
    /// node and the parenthesis stays open.
    pub fn parse_parenthesized_expression(&mut self, token: SpannedToken) -> (result: AstNode)
        requires
            old(self).wf(),
            token.1 == Token::OpeningParen,
        ensures
            Parser::steps(old(self), final(self)),
            (result, final(self).state()) == prefix(old(self).tokens@, old(self).state(), token),
        decreases old(self).tokens@.len() - old(self).position, 35nat,
    {
        self.unclosed_delimiters.push(token);
        let expression = self.parse_expression_with(Precedence(START));
        match self.expect_matches(Pattern::Token(Token::ClosingParen)) {
            Ok(_) => {
                self.close_delimiter();
                expression
            },
            Err(error) => AstNode::Error(token.0.union(error.location)),
        }
    }

    /// Forgets the bracket that was opened last.
    pub fn close_delimiter(&mut self)
        ensures
            Parser::same_input(old(self), final(self)),
            final(self).position == old(self).position,
            final(self).state() == old(self).state().closed(),
    {
        if self.unclosed_delimiters.len() > 0 {
            self.unclosed_delimiters.pop();
        }
    }

    /// Reads what `left` and the operator `token`, which was read, begin.
    pub fn parse_infix(&mut self, left: AstNode, token: SpannedToken) -> (result: AstNode)
        requires
            old(self).wf(),
        ensures
            Parser::steps(old(self), final(self)),
            (result, final(self).state()) == infix(
                old(self).tokens@,
                old(self).state(),
                left,
                token,
            ),
        decreases old(self).tokens@.len() - old(self).position, 50nat,
    {
        if token.1 == Token::OpeningParen {
            self.parse_call(left, token)
        } else if token.1.is_in(Category::Path) {
            let right = self.parse_expression_with(Precedence(POSTFIX - 1));
            AstNode::Path {
                span: left.span().union(right.span()),
                left: Box::new(left),
                access: if token.1 == Token::Dot {
                    PathAccess::Member
                } else {
                    PathAccess::Scope
                },
                right: Box::new(right),
            }
        } else {
            match BinaryOperator::try_from(token.1) {
                Ok(operator) => self.parse_binary(left, token, operator),
                Err(_) => {
                    if token.1 == Token::Colon {
                        self.parse_pair(left, token)
                    } else if token.1 == Token::Comma {
                        self.parse_sequence(left, token)
                    } else if token.1 == Token::Equals {
                        self.parse_assignment(left, token)
                    } else {
                        AstNode::Error(token.0)
                    }
                },
            }
        }
    }

    /// Reads the right operand of the binary operator `token`, which was
    /// read: with the precedence of the operator where it groups to the
    /// left, and one lower where it groups to the right.
    pub fn parse_binary(&mut self, left: AstNode, token: SpannedToken, operator: BinaryOperator) -> (result:
        AstNode)
        requires
            old(self).wf(),
            binary_of(token.1) == Some(operator),
        ensures
            Parser::steps(old(self), final(self)),
            (result, final(self).state()) == infix(
                old(self).tokens@,
                old(self).state(),
                left,
                token,
            ),
        decreases old(self).tokens@.len() - old(self).position, 35nat,
    {
        let precedence = token.1.precedence();
        let associativity = token.1.associativity();
        let right = self.parse_expression_with(precedence.with(associativity));
        AstNode::Binary {
            span: left.span().union(right.span()),
            operator: OperatorInfo { operator, span: token.0 },
            left: Box::new(left),
            right: Box::new(right),
        }
    }

    /// Reads what stands behind the colon of a pair.
    pub fn parse_pair(&mut self, left: AstNode, token: SpannedToken) -> (result: AstNode)
        requires
            old(self).wf(),
            token.1 == Token::Colon,
        ensures
            Parser::steps(old(self), final(self)),
            (result, final(self).state()) == infix(
                old(self).tokens@,
                old(self).state(),
                left,
                token,
            ),
        decreases old(self).tokens@.len() - old(self).position, 35nat,
    {
        let right = self.parse_expression_with(Precedence(PAIR));
        AstNode::Pair {
            span: left.span().union(right.span()),
            left: Box::new(left),
            right: Box::new(right),
        }
    }

    /// Reads what stands behind the comma `token`, which was read. A
    /// closing bracket there ends the sequence: one comma may trail.
    pub fn parse_sequence(&mut self, left: AstNode, token: SpannedToken) -> (result: AstNode)
        requires
            old(self).wf(),
            token.1 == Token::Comma,
        ensures
            Parser::steps(old(self), final(self)),
            (result, final(self).state()) == infix(
                old(self).tokens@,
                old(self).state(),
                left,
                token,
            ),
        decreases old(self).tokens@.len() - old(self).position, 35nat,
    {
        let stops = match self.peek() {
            Ok(next) => next.1.is_in(Category::ClosingBracket),
            Err(_) => false,
        };
        if stops {
            AstNode::Sequence {
                span: left.span().union(token.0),
                left: Box::new(left),
                right: None,
            }
        } else {
            let right = self.parse_expression_with(Precedence(SEQUENCE - 1));
            AstNode::Sequence {
                span: left.span().union(right.span()),
                left: Box::new(left),
                right: Some(Box::new(right)),
            }
        }
    }

    /// Reads the value of an assignment.
    pub fn parse_assignment(&mut self, left: AstNode, token: SpannedToken) -> (result: AstNode)
        requires
            old(self).wf(),
            token.1 == Token::Equals,
        ensures
            Parser::steps(old(self), final(self)),
            (result, final(self).state()) == infix(
                old(self).tokens@,
                old(self).state(),
                left,
                token,
            ),
        decreases old(self).tokens@.len() - old(self).position, 35nat,
    {
        let right = self.parse_expression_with(Precedence(STATEMENT));
        AstNode::Assignment {
            span: left.span().union(right.span()),
            ty: AssignmentType::Value,
            pattern: Box::new(left),
            value: Box::new(right),
        }
    }

    /// Reads the arguments of a call and the parenthesis that closes it.
    /// `token` is the opening parenthesis, which was read. Where the
    /// closing one is missing, the node is an error node at the call, and
    /// the parenthesis stays open.
    pub fn parse_call(&mut self, subject: AstNode, token: SpannedToken) -> (result: AstNode)
        requires
            old(self).wf(),
            token.1 == Token::OpeningParen,
        ensures
            Parser::steps(old(self), final(self)),
            (result, final(self).state()) == infix(
                old(self).tokens@,
                old(self).state(),
                subject,
                token,
            ),
        decreases old(self).tokens@.len() - old(self).position, 35nat,
    {
        self.unclosed_delimiters.push(token);
        let arguments: Option<Box<AstNode>> = match self.peek() {
            Err(_) => None,
            Ok(next) => if next.1 == Token::ClosingParen {
                None
            } else {
                Some(Box::new(self.parse_expression_with(Precedence(START))))
            },
        };
        match self.expect_matches(Pattern::Token(Token::ClosingParen)) {
            Ok(end) => {
                self.close_delimiter();
                AstNode::Call {
                    span: subject.span().union(end.0),
                    subject: Box::new(subject),
                    arguments,
                }
            },
            Err(error) => AstNode::Error(subject.span().union(error.location)),
        }
    }

    /// Reads an expression of any precedence.
    pub fn parse_expression(&mut self) -> (result: AstNode)
        requires
            old(self).wf(),
        ensures
            Parser::steps(old(self), final(self)),
            (result, final(self).state()) == expression(
                old(self).tokens@,
                old(self).state(),
                START,
            ),
    {
        self.parse_expression_with(Precedence(START))
    }

    /// Makes one diagnostic for each bracket that is still open, in the
    /// order in which they were opened, each at the place of its bracket.
    pub fn add_delimiter_errors(&mut self)
        ensures
            Parser::same_input(old(self), final(self)),
            final(self).position == old(self).position,
            final(self).unclosed_delimiters == old(self).unclosed_delimiters,
            final(self).errors@ == old(self).errors@ + unclosed_errors(
                old(self).unclosed_delimiters@,
            ),
    {
        let mut index: usize = 0;
        while index < self.unclosed_delimiters.len()
            invariant
                Parser::same_input(old(self), self),
                self.position == old(self).position,
                self.unclosed_delimiters == old(self).unclosed_delimiters,
                index <= self.unclosed_delimiters@.len(),
                self.errors@ == old(self).errors@ + unclosed_errors(
                    old(self).unclosed_delimiters@.take(index as int),
                ),
            decreases self.unclosed_delimiters@.len() - index,
        {
            let open = self.unclosed_delimiters[index];
            self.errors.push(Error::unclosed(open.0));
            index += 1;
            assert(self.errors@ =~= old(self).errors@ + unclosed_errors(
                old(self).unclosed_delimiters@.take(index as int),
            ));
        }
        assert(old(self).unclosed_delimiters@.take(index as int) =~= old(
            self,
        ).unclosed_delimiters@);
    }
}

} // verus!
