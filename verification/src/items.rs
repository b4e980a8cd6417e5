use crate::ast::AstNode;
use crate::error::{Error, ErrorKind, Unexpected};
use crate::parser::{
    expect, expect_or_insert, expression, grown, peek_at, unclosed_errors, Parser, State,
};
use crate::pattern::Pattern;
use crate::span::{Spanned, SpannedToken};
use crate::token::{Category, Token};
use crate::token_info::{Precedence, SEQUENCE, START, STATEMENT};
use vstd::prelude::*;

verus! {

/// Giving up on what was being read: the error becomes a diagnostic, and
/// an error node stands at its place.
pub open spec fn bail(error: Error, st: State) -> (AstNode, State) {
    (AstNode::Error(error.location), st.with_error(error))
}

/// Whether `after` is a state that reading from `before` can lead to.
pub open spec fn onward(tokens: Seq<SpannedToken>, before: State, after: State) -> bool {
    before.position <= after.position <= tokens.len()
}

/// Reads the next token if `pattern` accepts it. Otherwise nothing is read
/// and nothing is reported: the state is the one before the attempt.
pub open spec fn attempt(tokens: Seq<SpannedToken>, st: State, pattern: Pattern) -> (
    Option<SpannedToken>,
    State,
) {
    match peek_at(tokens, st.position) {
        Ok(token) => if pattern.accepts(token.1) {
            (Some(token), st.at(st.position + 1))
        } else {
            (None, st)
        },
        Err(_) => (None, st),
    }
}

/// The error for a token that cannot stand where it stands.
pub open spec fn unexpected_token(token: SpannedToken) -> Error {
    Error { location: token.0, kind: ErrorKind::Simple(Unexpected::Token(token.1)) }
}

/// `first` before `rest` in a chain of sequences.
pub open spec fn chain(first: AstNode, rest: Option<Box<AstNode>>) -> AstNode {
    AstNode::Sequence {
        span: match rest {
            Some(others) => first.spec_span().spec_union(others.spec_span()),
            None => first.spec_span(),
        },
        left: Box::new(first),
        right: rest,
    }
}

/// The declaration of a module: behind the keyword, which was read, a name
/// and a semicolon.
pub open spec fn module_item(tokens: Seq<SpannedToken>, st: State, keyword: SpannedToken) -> (
    AstNode,
    State,
) {
    let name = expect(tokens, st, Pattern::Token(Token::Identifier));
    match name.0 {
        Err(error) => bail(error, name.1),
        Ok(word) => {
            let end = expect(tokens, name.1, Pattern::Token(Token::Semicolon));
            match end.0 {
                Err(error) => bail(error, end.1),
                Ok(last) => (
                    AstNode::Module { span: keyword.0.spec_union(last.0), name: word.0 },
                    end.1,
                ),
            }
        },
    }
}

/// A struct: behind the keyword, which was read, a name and the fields
/// between braces.
pub open spec fn struct_item(tokens: Seq<SpannedToken>, st: State, keyword: SpannedToken) -> (
    AstNode,
    State,
)
    decreases tokens.len() - st.position, 60nat,
{
    let name = expect(tokens, st, Pattern::Token(Token::Identifier));
    match name.0 {
        Err(error) => bail(error, name.1),
        Ok(word) => {
            let open = expect(tokens, name.1, Pattern::Token(Token::OpeningBrace));
            match open.0 {
                Err(error) => bail(error, open.1),
                Ok(brace) => if onward(tokens, st, open.1) {
                    let fields = expression(tokens, open.1.opened(brace), STATEMENT);
                    let close = expect(tokens, fields.1, Pattern::Token(Token::ClosingBrace));
                    match close.0 {
                        Err(error) => (
                            AstNode::Error(keyword.0.spec_union(error.location)),
                            close.1,
                        ),
                        Ok(last) => (
                            AstNode::Struct {
                                span: keyword.0.spec_union(last.0),
                                name: word.0,
                                fields: Box::new(fields.0),
                            },
                            close.1.closed(),
                        ),
                    }
                } else {
                    (AstNode::Error(keyword.0), open.1)
                },
            }
        },
    }
}

/// What stands between the parentheses of a function, behind the opening
/// one: nothing, or one expression.
pub open spec fn parameters(tokens: Seq<SpannedToken>, st: State) -> (
    Option<Box<AstNode>>,
    State,
)
    decreases tokens.len() - st.position, 20nat,
{
    match peek_at(tokens, st.position) {
        Err(_) => (None, st),
        Ok(next) => if next.1 == Token::ClosingParen {
            (None, st)
        } else {
            let inner = expression(tokens, st, START);
            (Some(Box::new(inner.0)), inner.1)
        },
    }
}

/// The result type of a function, where an arrow announces one.
pub open spec fn return_type(tokens: Seq<SpannedToken>, st: State) -> (
    Option<Box<AstNode>>,
    State,
)
    decreases tokens.len() - st.position, 20nat,
{
    let arrow = attempt(tokens, st, Pattern::Token(Token::Arrow));
    match arrow.0 {
        Some(_) => if onward(tokens, st, arrow.1) {
            let inner = expression(tokens, arrow.1, SEQUENCE);
            (Some(Box::new(inner.0)), inner.1)
        } else {
            (None, arrow.1)
        },
        None => (None, st),
    }
}

/// A function: behind the keyword, which was read, a name, the parameters
/// between parentheses, a return type where an arrow announces one, and a
/// body between braces or a semicolon in place of one.
pub open spec fn function_item(tokens: Seq<SpannedToken>, st: State, keyword: SpannedToken) -> (
    AstNode,
    State,
)
    decreases tokens.len() - st.position, 60nat,
{
    let name = expect(tokens, st, Pattern::Token(Token::Identifier));
    match name.0 {
        Err(error) => bail(error, name.1),
        Ok(word) => {
            let open = expect(tokens, name.1, Pattern::Token(Token::OpeningParen));
            match open.0 {
                Err(error) => bail(error, open.1),
                Ok(paren) => if onward(tokens, st, open.1) {
                    let inside = parameters(tokens, open.1.opened(paren));
                    let close = expect(tokens, inside.1, Pattern::Token(Token::ClosingParen));
                    match close.0 {
                        Err(error) => (
                            AstNode::Error(keyword.0.spec_union(error.location)),
                            close.1,
                        ),
                        Ok(_) => if onward(tokens, st, close.1) {
                            let returned = return_type(tokens, close.1.closed());
                            if onward(tokens, st, returned.1) {
                                function_body(
                                    tokens,
                                    returned.1,
                                    keyword,
                                    word,
                                    inside.0,
                                    returned.0,
                                )
                            } else {
                                (AstNode::Error(keyword.0), returned.1)
                            }
                        } else {
                            (AstNode::Error(keyword.0), close.1)
                        },
                    }
                } else {
                    (AstNode::Error(keyword.0), open.1)
                },
            }
        },
    }
}

/// The end of a function: its body between braces, or a semicolon.
pub open spec fn function_body(
    tokens: Seq<SpannedToken>,
    st: State,
    keyword: SpannedToken,
    word: SpannedToken,
    inside: Option<Box<AstNode>>,
    returned: Option<Box<AstNode>>,
) -> (AstNode, State)
    decreases tokens.len() - st.position, 58nat,
{
    match peek_at(tokens, st.position) {
        Err(error) => bail(error, st),
        Ok(next) => if next.1 == Token::OpeningBrace {
            let body = block(tokens, st.at(st.position + 1), next);
            (
                AstNode::Function {
                    span: keyword.0.spec_union(body.0.spec_span()),
                    name: word.0,
                    parameters: inside,
                    return_type: returned,
                    body: Some(Box::new(body.0)),
                },
                body.1,
            )
        } else if next.1 == Token::Semicolon {
            (
                AstNode::Function {
                    span: keyword.0.spec_union(next.0),
                    name: word.0,
                    parameters: inside,
                    return_type: returned,
                    body: None,
                },
                st.at(st.position + 1),
            )
        } else {
            bail(unexpected_token(next), st)
        },
    }
}

/// A block: behind the opening brace, which was read, items up to the
/// closing brace. Where that is missing, the block ends with the source,
/// and its brace stays open.
pub open spec fn block(tokens: Seq<SpannedToken>, st: State, brace: SpannedToken) -> (
    AstNode,
    State,
)
    decreases tokens.len() - st.position, 55nat,
{
    let inside = block_items(tokens, st.opened(brace));
    let close = expect(tokens, inside.1, Pattern::Token(Token::ClosingBrace));
    match close.0 {
        Ok(last) => (
            AstNode::Block { span: brace.0.spec_union(last.0), items: inside.0 },
            close.1.closed(),
        ),
        Err(error) => (
            AstNode::Block { span: brace.0.spec_union(error.location), items: inside.0 },
            close.1,
        ),
    }
}

/// The items up to a closing brace or the end of the source, chained as a
/// sequence.
pub open spec fn block_items(tokens: Seq<SpannedToken>, st: State) -> (
    Option<Box<AstNode>>,
    State,
)
    decreases tokens.len() - st.position, 50nat,
{
    match peek_at(tokens, st.position) {
        Err(_) => (None, st),
        Ok(next) => if next.1 == Token::ClosingBrace {
            (None, st)
        } else {
            let first = item(tokens, st);
            if st.position < first.1.position <= tokens.len() {
                let rest = block_items(tokens, first.1);
                (Some(Box::new(chain(first.0, rest.0))), rest.1)
            } else {
                (Some(Box::new(chain(first.0, None))), first.1)
            }
        },
    }
}

/// Metadata: behind the hash, which was read, an expression between
/// brackets. With an exclamation mark before the brackets it is about the
/// module, and else about the item that follows.
pub open spec fn metadata_item(tokens: Seq<SpannedToken>, st: State, hash: SpannedToken) -> (
    AstNode,
    State,
)
    decreases tokens.len() - st.position, 60nat,
{
    let bang = attempt(tokens, st, Pattern::Token(Token::Exclamation));
    let open = expect(tokens, bang.1, Pattern::Token(Token::OpeningBracket));
    match open.0 {
        Err(error) => bail(error, open.1),
        Ok(bracket) => if onward(tokens, st, open.1) {
            let inner = expression(tokens, open.1.opened(bracket), START);
            let close = expect(tokens, inner.1, Pattern::Token(Token::ClosingBracket));
            match close.0 {
                Err(error) => (AstNode::Error(hash.0.spec_union(error.location)), close.1),
                Ok(last) => if bang.0 is Some {
                    (
                        AstNode::ModuleMetadata {
                            span: hash.0.spec_union(last.0),
                            inner: Box::new(inner.0),
                        },
                        close.1.closed(),
                    )
                } else if onward(tokens, st, close.1) {
                    let subject = item(tokens, close.1.closed());
                    (
                        AstNode::ItemMetadata {
                            span: hash.0.spec_union(subject.0.spec_span()),
                            inner: Box::new(inner.0),
                            subject: Box::new(subject.0),
                        },
                        subject.1,
                    )
                } else {
                    (AstNode::Error(hash.0), close.1)
                },
            }
        } else {
            (AstNode::Error(hash.0), open.1)
        },
    }
}

/// An expression as an item: the expression and a semicolon. Where the
/// semicolon is missing before the keyword of the next item, it is taken
/// as present. The expression stays where no semicolon is found.
pub open spec fn statement(tokens: Seq<SpannedToken>, st: State) -> (AstNode, State) {
    let value = expression(tokens, st, START);
    let end = expect_or_insert(
        tokens,
        value.1,
        Pattern::Token(Token::Semicolon),
        Pattern::AnyOf(Category::ItemKeyword),
    );
    match end.0 {
        Ok(_) => (value.0, end.1),
        Err(error) => (value.0, end.1.with_error(error)),
    }
}

/// One item: metadata, a module, a struct or a function, by the token
/// that it begins with, and else an expression with its semicolon.
pub open spec fn item(tokens: Seq<SpannedToken>, st: State) -> (AstNode, State)
    decreases tokens.len() - st.position, 40nat,
{
    match peek_at(tokens, st.position) {
        Err(error) => bail(error, st),
        Ok(token) => if token.1 == Token::Hash {
            metadata_item(tokens, st.at(st.position + 1), token)
        } else if token.1 == Token::Module {
            module_item(tokens, st.at(st.position + 1), token)
        } else if token.1 == Token::Struct {
            struct_item(tokens, st.at(st.position + 1), token)
        } else if token.1 == Token::Function {
            function_item(tokens, st.at(st.position + 1), token)
        } else {
            statement(tokens, st)
        },
    }
}

/// The items up to the end of the source.
pub open spec fn program(tokens: Seq<SpannedToken>, st: State) -> (Seq<AstNode>, State)
    decreases tokens.len() - st.position,
{
    if st.position >= tokens.len() {
        (Seq::empty(), st)
    } else {
        let first = item(tokens, st);
        if st.position < first.1.position <= tokens.len() {
            let rest = program(tokens, first.1);
            (seq![first.0] + rest.0, rest.1)
        } else {
            (seq![first.0], first.1)
        }
    }
}

/// A state of a parser to come back to: how many tokens were read, and
/// how many diagnostics and open brackets there were.
#[derive(Debug, Clone, Copy)]
pub struct Checkpoint {
    pub position: usize,
    pub errors: usize,
    pub unclosed: usize,
}

impl Parser {
    /// The error becomes a diagnostic, and an error node stands at its
    /// place.
    pub fn fail(&mut self, error: Error) -> (result: AstNode)
        ensures
            Parser::same_input(old(self), final(self)),
            final(self).position == old(self).position,
            (result, final(self).state()) == bail(error, old(self).state()),
    {
        self.errors.push(error);
        AstNode::Error(error.location)
    }

    /// Reads the next token if `expected` accepts it. Otherwise nothing is
    /// read and nothing is reported.
    pub fn try_matches(&mut self, expected: Pattern) -> (result: Option<SpannedToken>)
        requires
            old(self).wf(),
        ensures
            Parser::steps(old(self), final(self)),
            (result, final(self).state()) == attempt(
                old(self).tokens@,
                old(self).state(),
                expected,
            ),
            result is None ==> *final(self) == *old(self),
    {
        if self.position < self.tokens.len() {
            let token = self.tokens[self.position];
            if expected.matches(token.1) {
                self.position = self.position + 1;
                return Some(token);
            }
        }
        None
    }

    /// The state of this parser, to come back to.
    pub fn checkpoint(&self) -> (result: Checkpoint)
        ensures
            result.position == self.position,
            result.errors == self.errors@.len(),
            result.unclosed == self.unclosed_delimiters@.len(),
    {
        Checkpoint {
            position: self.position,
            errors: self.errors.len(),
            unclosed: self.unclosed_delimiters.len(),
        }
    }

    /// Goes back to `checkpoint`: the tokens read since are unread, and the
    /// diagnostics and open brackets added since are forgotten.
    pub fn restore(&mut self, checkpoint: Checkpoint)
        requires
            checkpoint.position <= old(self).tokens@.len(),
            checkpoint.errors <= old(self).errors@.len(),
            checkpoint.unclosed <= old(self).unclosed_delimiters@.len(),
        ensures
            Parser::same_input(old(self), final(self)),
            final(self).wf(),
            final(self).state() == (State {
                position: checkpoint.position as nat,
                errors: old(self).errors@.take(checkpoint.errors as int),
                unclosed: old(self).unclosed_delimiters@.take(checkpoint.unclosed as int),
            }),
    {
        self.position = checkpoint.position;
        self.errors.truncate(checkpoint.errors);
        self.unclosed_delimiters.truncate(checkpoint.unclosed);
    }

    /// Reads the declaration of a module behind its keyword.
    pub fn parse_module(&mut self, keyword: SpannedToken) -> (result: AstNode)
        requires
            old(self).wf(),
        ensures
            Parser::steps(old(self), final(self)),
            (result, final(self).state()) == module_item(
                old(self).tokens@,
                old(self).state(),
                keyword,
            ),
    {
        let word = match self.expect_matches(Pattern::Token(Token::Identifier)) {
            Ok(word) => word,
            Err(error) => {
                return self.fail(error);
            },
        };
        let last = match self.expect_matches(Pattern::Token(Token::Semicolon)) {
            Ok(last) => last,
            Err(error) => {
                return self.fail(error);
            },
        };
        AstNode::Module { span: keyword.0.union(last.0), name: word.0 }
    }

    /// Reads a struct behind its keyword.
    pub fn parse_struct(&mut self, keyword: SpannedToken) -> (result: AstNode)
        requires
            old(self).wf(),
        ensures
            Parser::steps(old(self), final(self)),
            (result, final(self).state()) == struct_item(
                old(self).tokens@,
                old(self).state(),
                keyword,
            ),
    {
        let word = match self.expect_matches(Pattern::Token(Token::Identifier)) {
            Ok(word) => word,
            Err(error) => {
                return self.fail(error);
            },
        };
        let brace = match self.expect_matches(Pattern::Token(Token::OpeningBrace)) {
            Ok(brace) => brace,
            Err(error) => {
                return self.fail(error);
            },
        };
        self.unclosed_delimiters.push(brace);
        let fields = self.parse_expression_with(Precedence(STATEMENT));
        match self.expect_matches(Pattern::Token(Token::ClosingBrace)) {
            Err(error) => AstNode::Error(keyword.0.union(error.location)),
            Ok(last) => {
                self.close_delimiter();
                AstNode::Struct {
                    span: keyword.0.union(last.0),
                    name: word.0,
                    fields: Box::new(fields),
                }
            },
        }
    }

    /// Reads what stands between the parentheses of a function.
    fn parse_parameters(&mut self) -> (result: Option<Box<AstNode>>)
        requires
            old(self).wf(),
        ensures
            Parser::steps(old(self), final(self)),
            (result, final(self).state()) == parameters(old(self).tokens@, old(self).state()),
    {
        match self.peek() {
            Err(_) => None,
            Ok(next) => if next.1 == Token::ClosingParen {
                None
            } else {
                Some(Box::new(self.parse_expression_with(Precedence(START))))
            },
        }
    }

    /// Reads the result type of a function, where an arrow announces one.
    fn parse_return_type(&mut self) -> (result: Option<Box<AstNode>>)
        requires
            old(self).wf(),
        ensures
            Parser::steps(old(self), final(self)),
            (result, final(self).state()) == return_type(old(self).tokens@, old(self).state()),
    {
        match self.try_matches(Pattern::Token(Token::Arrow)) {
            Some(_) => Some(Box::new(self.parse_expression_with(Precedence(SEQUENCE)))),
            None => None,
        }
    }

    /// Reads a function behind its keyword.
    pub fn parse_function(&mut self, keyword: SpannedToken) -> (result: AstNode)
        requires
            old(self).wf(),
        ensures
            Parser::steps(old(self), final(self)),
            (result, final(self).state()) == function_item(
                old(self).tokens@,
                old(self).state(),
                keyword,
            ),
        decreases old(self).tokens@.len() - old(self).position, 60nat,
    {
        let word = match self.expect_matches(Pattern::Token(Token::Identifier)) {
            Ok(word) => word,
            Err(error) => {
                return self.fail(error);
            },
        };
        let paren = match self.expect_matches(Pattern::Token(Token::OpeningParen)) {
            Ok(paren) => paren,
            Err(error) => {
                return self.fail(error);
            },
        };
        self.unclosed_delimiters.push(paren);
        let inside = self.parse_parameters();
        match self.expect_matches(Pattern::Token(Token::ClosingParen)) {
            Err(error) => {
                return AstNode::Error(keyword.0.union(error.location));
            },
            Ok(_) => {},
        }
        self.close_delimiter();
        let returned = self.parse_return_type();
        self.parse_function_body(keyword, word, inside, returned)
    }

    /// Reads the end of a function: its body between braces, or a
    /// semicolon.
    fn parse_function_body(
        &mut self,
        keyword: SpannedToken,
        word: SpannedToken,
        inside: Option<Box<AstNode>>,
        returned: Option<Box<AstNode>>,
    ) -> (result: AstNode)
        requires
            old(self).wf(),
        ensures
            Parser::steps(old(self), final(self)),
            (result, final(self).state()) == function_body(
                old(self).tokens@,
                old(self).state(),
                keyword,
                word,
                inside,
                returned,
            ),
        decreases old(self).tokens@.len() - old(self).position, 58nat,
    {
        if self.position >= self.tokens.len() {
            let error = Error::eof(self.end());
            return self.fail(error);
        }
        let next = self.tokens[self.position];
        if next.1 == Token::OpeningBrace {
            self.position = self.position + 1;
            let body = self.parse_block(next);
            AstNode::Function {
                span: keyword.0.union(body.span()),
                name: word.0,
                parameters: inside,
                return_type: returned,
                body: Some(Box::new(body)),
            }
        } else if next.1 == Token::Semicolon {
            self.position = self.position + 1;
            AstNode::Function {
                span: keyword.0.union(next.0),
                name: word.0,
                parameters: inside,
                return_type: returned,
                body: None,
            }
        } else {
            self.fail(Error { location: next.0, kind: ErrorKind::Simple(Unexpected::Token(next.1)) })
        }
    }

    /// Reads the items of a block and its closing brace. `brace` is the
    /// opening brace, which was read.
    pub fn parse_block(&mut self, brace: SpannedToken) -> (result: AstNode)
        requires
            old(self).wf(),
        ensures
            Parser::steps(old(self), final(self)),
            (result, final(self).state()) == block(old(self).tokens@, old(self).state(), brace),
        decreases old(self).tokens@.len() - old(self).position, 55nat,
    {
        self.unclosed_delimiters.push(brace);
        let inside = self.parse_block_items();
        match self.expect_matches(Pattern::Token(Token::ClosingBrace)) {
            Ok(last) => {
                self.close_delimiter();
                AstNode::Block { span: brace.0.union(last.0), items: inside }
            },
            Err(error) => AstNode::Block { span: brace.0.union(error.location), items: inside },
        }
    }

    /// Reads items up to a closing brace or the end of the source.
    fn parse_block_items(&mut self) -> (result: Option<Box<AstNode>>)
        requires
            old(self).wf(),
        ensures
            Parser::steps(old(self), final(self)),
            (result, final(self).state()) == block_items(old(self).tokens@, old(self).state()),
        decreases old(self).tokens@.len() - old(self).position, 50nat,
    {
        if self.position >= self.tokens.len() {
            return None;
        }
        if self.tokens[self.position].1 == Token::ClosingBrace {
            return None;
        }
        let first = self.parse_item();
        let rest = self.parse_block_items();
        let span = match &rest {
            Some(others) => first.span().union(others.span()),
            None => first.span(),
        };
        Some(Box::new(AstNode::Sequence { span, left: Box::new(first), right: rest }))
    }

    /// Reads metadata behind its hash.
    pub fn parse_metadata(&mut self, hash: SpannedToken) -> (result: AstNode)
        requires
            old(self).wf(),
        ensures
            Parser::steps(old(self), final(self)),
            (result, final(self).state()) == metadata_item(
                old(self).tokens@,
                old(self).state(),
                hash,
            ),
        decreases old(self).tokens@.len() - old(self).position, 60nat,
    {
        let bang = self.try_matches(Pattern::Token(Token::Exclamation));
        let bracket = match self.expect_matches(Pattern::Token(Token::OpeningBracket)) {
            Ok(bracket) => bracket,
            Err(error) => {
                return self.fail(error);
            },
        };
        self.unclosed_delimiters.push(bracket);
        let inner = self.parse_expression_with(Precedence(START));
        let last = match self.expect_matches(Pattern::Token(Token::ClosingBracket)) {
            Err(error) => {
                return AstNode::Error(hash.0.union(error.location));
            },
            Ok(last) => last,
        };
        self.close_delimiter();
        if bang.is_some() {
            AstNode::ModuleMetadata { span: hash.0.union(last.0), inner: Box::new(inner) }
        } else {
            let subject = self.parse_item();
            AstNode::ItemMetadata {
                span: hash.0.union(subject.span()),
                inner: Box::new(inner),
                subject: Box::new(subject),
            }
        }
    }

    /// Reads an expression and its semicolon.
    pub fn parse_statement(&mut self) -> (result: AstNode)
        requires
            old(self).wf(),
        ensures
            Parser::steps(old(self), final(self)),
            (result, final(self).state()) == statement(old(self).tokens@, old(self).state()),
            old(self).position < old(self).tokens@.len() ==> final(self).position > old(
                self,
            ).position,
    {
        let value = self.parse_expression_with(Precedence(START));
        match self.expect_matches_or_recover_with(
            Pattern::Token(Token::Semicolon),
            Pattern::AnyOf(Category::ItemKeyword),
        ) {
            Ok(_) => {},
            Err(error) => {
                self.errors.push(error);
            },
        }
        value
    }

    /// Reads one item. Whenever a token is left, at least one is read.
    pub fn parse_item(&mut self) -> (result: AstNode)
        requires
            old(self).wf(),
        ensures
            Parser::steps(old(self), final(self)),
            (result, final(self).state()) == item(old(self).tokens@, old(self).state()),
            old(self).position < old(self).tokens@.len() ==> final(self).position > old(
                self,
            ).position,
        decreases old(self).tokens@.len() - old(self).position, 40nat,
    {
        if self.position >= self.tokens.len() {
            let error = Error::eof(self.end());
            return self.fail(error);
        }
        let token = self.tokens[self.position];
        if token.1 == Token::Hash {
            self.position = self.position + 1;
            self.parse_metadata(token)
        } else if token.1 == Token::Module {
            self.position = self.position + 1;
            self.parse_module(token)
        } else if token.1 == Token::Struct {
            self.position = self.position + 1;
            self.parse_struct(token)
        } else if token.1 == Token::Function {
            self.position = self.position + 1;
            self.parse_function(token)
        } else {
            self.parse_statement()
        }
    }

    /// Reads every item of the source, and then makes one diagnostic for
    /// each bracket that is still open, in the order in which they were
    /// opened.
    pub fn parse(&mut self) -> (result: Vec<AstNode>)
        requires
            old(self).wf(),
        ensures
            Parser::same_input(old(self), final(self)),
            final(self).position == old(self).tokens@.len(),
            result@ == program(old(self).tokens@, old(self).state()).0,
            final(self).unclosed_delimiters@ == program(
                old(self).tokens@,
                old(self).state(),
            ).1.unclosed,
            final(self).errors@ == program(old(self).tokens@, old(self).state()).1.errors
                + unclosed_errors(program(old(self).tokens@, old(self).state()).1.unclosed),
            grown(old(self).errors@, program(old(self).tokens@, old(self).state()).1.errors),
    {
        let mut items: Vec<AstNode> = Vec::new();
        let ghost tokens = self.tokens@;
        let ghost whole = program(tokens, self.state());
        while self.position < self.tokens.len()
            invariant
                Parser::steps(old(self), self),
                tokens == self.tokens@,
                whole.0 == items@ + program(tokens, self.state()).0,
                whole.1 == program(tokens, self.state()).1,
            decreases self.tokens@.len() - self.position,
        {
            let ghost before = items@;
            let ghost rest = program(tokens, self.state());
            let node = self.parse_item();
            items.push(node);
            proof {
                let after = program(tokens, self.state());
                assert(rest.0 =~= seq![node] + after.0);
                assert(whole.0 =~= items@ + after.0);
            }
        }
        proof {
            assert(program(tokens, self.state()).0 =~= Seq::empty());
            assert(whole.0 =~= items@);
        }
        self.add_delimiter_errors();
        items
    }
}

} // verus!
