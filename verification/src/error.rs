use crate::position::{copy_range, push_all};
use crate::span::{Span, Spanned, SpannedToken};
use crate::token::{Category, Token};
use vstd::prelude::*;
use vstd::string::*;

verus! {

/// Something that stands where it should not.
#[derive(Debug, Clone, Copy, PartialEq, Eq, Structural)]
pub enum Unexpected {
    Token(Token),
    Eof,
}

/// One side of a mismatch: what was expected, or what was found. The text
/// of a word or a symbol is the piece of the source that its span names.
#[derive(Debug, Clone, Copy, PartialEq, Eq, Structural)]
pub enum DiagnosticTerm {
    /// Any token of a category.
    AnyOf(Category),
    /// A word of the source.
    Word(Span),
    /// A piece of the source that is no token.
    Symbol(Span),
    Token(Token),
    /// The end of the source.
    Eof,
}

/// What a diagnostic says.
#[derive(Debug, Clone, Copy, PartialEq, Eq)]
pub enum Diagnostic {
    Mismatch { expected: DiagnosticTerm, found: DiagnosticTerm },
    /// A bracket was opened and never closed.
    UnclosedDelimiter,
    Message { message: &'static str },
}

/// The kind of a problem in the source.
#[derive(Debug, Clone, Copy, PartialEq, Eq)]
pub enum ErrorKind {
    Simple(Unexpected),
    Diagnostic(Diagnostic),
}

/// A problem in the source, and where it is.
#[derive(Debug, Clone, Copy, PartialEq, Eq)]
pub struct Error {
    pub location: Span,
    pub kind: ErrorKind,
}

/// How `found` is named in a diagnostic: an identifier by its text as a
/// word, what is no token by its text as a symbol, every other token by its
/// kind.
pub open spec fn found_term(found: SpannedToken) -> DiagnosticTerm {
    match found.1 {
        Token::Error => DiagnosticTerm::Symbol(found.0),
        Token::Identifier => DiagnosticTerm::Word(found.0),
        token => DiagnosticTerm::Token(token),
    }
}

/// The diagnostic that says that `expected` was expected where `found`
/// stands, with `location` as its place.
pub open spec fn mismatch(location: Span, expected: DiagnosticTerm, found: SpannedToken) -> Error {
    Error {
        location,
        kind: ErrorKind::Diagnostic(Diagnostic::Mismatch { expected, found: found_term(found) }),
    }
}

/// The diagnostic for a bracket that was opened at `location` and never
/// closed.
pub open spec fn unclosed(location: Span) -> Error {
    Error { location, kind: ErrorKind::Diagnostic(Diagnostic::UnclosedDelimiter) }
}

/// The error for the end of the source, with `location` as its place.
pub open spec fn unexpected_eof(location: Span) -> Error {
    Error { location, kind: ErrorKind::Simple(Unexpected::Eof) }
}

impl SpannedToken {
    /// How this token is named in a diagnostic.
    pub fn into_diagnostic(self) -> (result: DiagnosticTerm)
        ensures
            result == found_term(self),
    {
        match self.1 {
            Token::Error => DiagnosticTerm::Symbol(self.0),
            Token::Identifier => DiagnosticTerm::Word(self.0),
            token => DiagnosticTerm::Token(token),
        }
    }
}

impl Unexpected {
    /// The token, or the end of the source where there is none.
    pub fn from(value: Option<Token>) -> (result: Unexpected)
        ensures
            result == match value {
                Some(token) => Unexpected::Token(token),
                None => Unexpected::Eof,
            },
    {
        match value {
            Some(token) => Unexpected::Token(token),
            None => Unexpected::Eof,
        }
    }
}

impl Error {
    pub fn new(location: Span, kind: ErrorKind) -> (result: Error)
        ensures
            result == (Error { location, kind }),
    {
        Error { location, kind }
    }

    pub fn details(&self) -> (result: &ErrorKind)
        ensures
            *result == self.kind,
    {
        &self.kind
    }

    pub fn into_inner(self) -> (result: (Span, ErrorKind))
        ensures
            result == (self.location, self.kind),
    {
        (self.location, self.kind)
    }

    /// The diagnostic that says that `expected` was expected where `found`
    /// stands.
    pub fn mismatch(location: Span, expected: DiagnosticTerm, found: SpannedToken) -> (result: Error)
        ensures
            result == self::mismatch(location, expected, found),
    {
        Error {
            location,
            kind: ErrorKind::Diagnostic(
                Diagnostic::Mismatch { expected, found: found.into_diagnostic() },
            ),
        }
    }

    /// The diagnostic for a bracket that was never closed.
    pub fn unclosed(location: Span) -> (result: Error)
        ensures
            result == self::unclosed(location),
    {
        Error { location, kind: ErrorKind::Diagnostic(Diagnostic::UnclosedDelimiter) }
    }

    /// The error for the end of the source.
    pub fn eof(location: Span) -> (result: Error)
        ensures
            result == unexpected_eof(location),
    {
        Error { location, kind: ErrorKind::Simple(Unexpected::Eof) }
    }

    /// Whether this is the diagnostic for a bracket that was never closed.
    pub fn is_unclosed_delimiter(&self) -> (result: bool)
        ensures
            result == (self.kind == ErrorKind::Diagnostic(Diagnostic::UnclosedDelimiter)),
    {
        match self.kind {
            ErrorKind::Diagnostic(Diagnostic::UnclosedDelimiter) => true,
            _ => false,
        }
    }
}

impl Spanned for Error {
    open spec fn spanned(&self) -> Span {
        self.location
    }

    fn span(&self) -> (result: Span) {
        self.location
    }
}

/// Collects the place and the kind of an error, in any order.
#[derive(Debug, Clone, Copy)]
pub struct ErrorBuilder {
    pub location: Option<Span>,
    pub kind: Option<ErrorKind>,
}

impl ErrorBuilder {
    pub fn new() -> (result: ErrorBuilder)
        ensures
            result.location is None,
            result.kind is None,
    {
        ErrorBuilder { location: None, kind: None }
    }

    pub fn location(&mut self, span: Span)
        ensures
            final(self).location == Some(span),
            final(self).kind == old(self).kind,
    {
        self.location = Some(span);
    }

    pub fn message(&mut self, message: &'static str)
        ensures
            final(self).location == old(self).location,
            final(self).kind == Some(ErrorKind::Diagnostic(Diagnostic::Message { message })),
    {
        self.kind = Some(ErrorKind::Diagnostic(Diagnostic::Message { message }));
    }

    pub fn unexpected(&mut self, unexpected: Unexpected)
        ensures
            final(self).location == old(self).location,
            final(self).kind == Some(ErrorKind::Simple(unexpected)),
    {
        self.kind = Some(ErrorKind::Simple(unexpected));
    }

    pub fn mismatch(&mut self, expected: DiagnosticTerm, found: DiagnosticTerm)
        ensures
            final(self).location == old(self).location,
            final(self).kind == Some(
                ErrorKind::Diagnostic(Diagnostic::Mismatch { expected, found }),
            ),
    {
        self.kind = Some(ErrorKind::Diagnostic(Diagnostic::Mismatch { expected, found }));
    }

    /// The error that was collected, once it has both a place and a kind.
    /// The builder is then empty again.
    pub fn build(&mut self) -> (result: Option<Error>)
        ensures
            result == match (old(self).location, old(self).kind) {
                (Some(location), Some(kind)) => Some(Error { location, kind }),
                _ => None,
            },
            old(self).location is None ==> *final(self) == *old(self),
            old(self).location is Some && old(self).kind is None ==> final(self).location is None
                && final(self).kind is None,
            result is Some ==> final(self).location is None && final(self).kind is None,
    {
        let location = match self.location {
            Some(location) => location,
            None => {
                return None;
            },
        };
        self.location = None;
        let kind = match self.kind {
            Some(kind) => kind,
            None => {
                return None;
            },
        };
        self.kind = None;
        Some(Error { location, kind })
    }
}

/// The bytes of a text.
pub open spec fn bytes_of(text: Seq<char>) -> Seq<u8> {
    vstd::utf8::encode_utf8(text)
}

/// The piece of `source` that `span` names, and nothing where `span` does
/// not lie in `source`.
pub open spec fn slice_of(source: Seq<u8>, span: Span) -> Seq<u8> {
    if span.start <= span.end <= source.len() {
        source.subrange(span.start as int, span.end as int)
    } else {
        Seq::empty()
    }
}

/// The names of `tokens`, each followed by a comma and a space.
pub open spec fn listed(tokens: Seq<Token>) -> Seq<u8>
    decreases tokens.len(),
{
    if tokens.len() == 0 {
        Seq::empty()
    } else {
        listed(tokens.drop_last()) + bytes_of(tokens.last().text()) + bytes_of(", "@)
    }
}

/// How a choice among `tokens` is worded: `no tokens` for none, the name
/// for one, `A or B` for two, and `either A, B, or C` for more.
pub open spec fn terms_text(tokens: Seq<Token>) -> Seq<u8> {
    if tokens.len() == 0 {
        bytes_of("no tokens"@)
    } else if tokens.len() == 1 {
        bytes_of(tokens[0].text())
    } else if tokens.len() == 2 {
        bytes_of(tokens[0].text()) + bytes_of(" or "@) + bytes_of(tokens[1].text())
    } else {
        bytes_of("either "@) + listed(tokens.drop_last()) + bytes_of("or "@) + bytes_of(
            tokens.last().text(),
        )
    }
}

/// How `term` is worded. `source` is the text that its spans name.
pub open spec fn term_text(term: DiagnosticTerm, source: Seq<u8>) -> Seq<u8> {
    match term {
        DiagnosticTerm::AnyOf(category) => terms_text(category.members()),
        DiagnosticTerm::Word(span) => bytes_of("\""@) + slice_of(source, span) + bytes_of("\""@),
        DiagnosticTerm::Symbol(span) => bytes_of("`"@) + slice_of(source, span) + bytes_of("`"@),
        DiagnosticTerm::Token(token) => bytes_of(token.text()),
        DiagnosticTerm::Eof => bytes_of("EOF"@),
    }
}

/// How a problem of kind `kind` is worded.
pub open spec fn kind_text(kind: ErrorKind, source: Seq<u8>) -> Seq<u8> {
    match kind {
        ErrorKind::Simple(Unexpected::Token(token)) => bytes_of("unexpected "@) + bytes_of(
            token.text(),
        ),
        ErrorKind::Simple(Unexpected::Eof) => bytes_of("unexpected EOF"@),
        ErrorKind::Diagnostic(Diagnostic::Mismatch { expected, found }) => bytes_of("expected "@)
            + term_text(expected, source) + bytes_of(" but found "@) + term_text(found, source),
        ErrorKind::Diagnostic(Diagnostic::UnclosedDelimiter) => bytes_of("unclosed delimiter"@),
        ErrorKind::Diagnostic(Diagnostic::Message { message }) => bytes_of(message@),
    }
}

/// Appends the bytes of `text` to `out`.
pub fn push_str(out: &mut Vec<u8>, text: &str)
    ensures
        final(out)@ == old(out)@ + bytes_of(text@),
{
    push_all(out, text.as_bytes());
}

/// How a choice among `terms` is worded.
pub fn format_terms(terms: &[Token]) -> (result: Vec<u8>)
    ensures
        result@ == terms_text(terms@),
{
    let mut out: Vec<u8> = Vec::new();
    let count = terms.len();
    if count == 0 {
        push_str(&mut out, "no tokens");
    } else if count == 1 {
        push_str(&mut out, terms[0].describe());
    } else if count == 2 {
        push_str(&mut out, terms[0].describe());
        push_str(&mut out, " or ");
        push_str(&mut out, terms[1].describe());
    } else {
        push_str(&mut out, "either ");
        let ghost head = out@;
        let ghost front = terms@.drop_last();
        let mut index: usize = 0;
        assert(front.take(0) =~= Seq::empty());
        while index < count - 1
            invariant
                count == terms@.len(),
                count > 2,
                index <= count - 1,
                front == terms@.drop_last(),
                out@ == head + listed(front.take(index as int)),
            decreases count - index,
        {
            let ghost before = out@;
            push_str(&mut out, terms[index].describe());
            push_str(&mut out, ", ");
            proof {
                assert(front.take(index + 1).drop_last() =~= front.take(index as int));
                assert(front.take(index + 1).last() == terms@[index as int]);
                assert(out@ =~= head + listed(front.take(index + 1)));
            }
            index += 1;
        }
        assert(front.take(index as int) =~= front);
        push_str(&mut out, "or ");
        push_str(&mut out, terms[count - 1].describe());
    }
    out
}

impl DiagnosticTerm {
    /// How this term is worded. `source` is the text that its spans name.
    pub fn describe(&self, source: &[u8]) -> (result: Vec<u8>)
        ensures
            result@ == term_text(*self, source@),
    {
        match self {
            DiagnosticTerm::AnyOf(category) => {
                let tokens = category.tokens();
                format_terms(tokens.as_slice())
            },
            DiagnosticTerm::Word(span) => {
                let mut out: Vec<u8> = Vec::new();
                push_str(&mut out, "\"");
                push_slice(&mut out, source, *span);
                push_str(&mut out, "\"");
                out
            },
            DiagnosticTerm::Symbol(span) => {
                let mut out: Vec<u8> = Vec::new();
                push_str(&mut out, "`");
                push_slice(&mut out, source, *span);
                push_str(&mut out, "`");
                out
            },
            DiagnosticTerm::Token(token) => {
                let mut out: Vec<u8> = Vec::new();
                push_str(&mut out, token.describe());
                out
            },
            DiagnosticTerm::Eof => {
                let mut out: Vec<u8> = Vec::new();
                push_str(&mut out, "EOF");
                out
            },
        }
    }
}

/// Appends to `out` the piece of `source` that `span` names.
pub fn push_slice(out: &mut Vec<u8>, source: &[u8], span: Span)
    ensures
        final(out)@ == old(out)@ + slice_of(source@, span),
{
    if span.start <= span.end && span.end <= source.len() {
        let piece = copy_range(source, span.start, span.end);
        push_all(out, piece.as_slice());
    } else {
        assert(out@ =~= old(out)@ + slice_of(source@, span));
    }
}

impl ErrorKind {
    /// How a problem of this kind is worded.
    pub fn describe(&self, source: &[u8]) -> (result: Vec<u8>)
        ensures
            result@ == kind_text(*self, source@),
    {
        let mut out: Vec<u8> = Vec::new();
        match self {
            ErrorKind::Simple(Unexpected::Token(token)) => {
                push_str(&mut out, "unexpected ");
                push_str(&mut out, token.describe());
            },
            ErrorKind::Simple(Unexpected::Eof) => {
                push_str(&mut out, "unexpected EOF");
            },
            ErrorKind::Diagnostic(Diagnostic::Mismatch { expected, found }) => {
                push_str(&mut out, "expected ");
                let first = expected.describe(source);
                push_all(&mut out, first.as_slice());
                push_str(&mut out, " but found ");
                let second = found.describe(source);
                push_all(&mut out, second.as_slice());
            },
            ErrorKind::Diagnostic(Diagnostic::UnclosedDelimiter) => {
                push_str(&mut out, "unclosed delimiter");
            },
            ErrorKind::Diagnostic(Diagnostic::Message { message }) => {
                push_str(&mut out, message);
            },
        }
        assert(out@ =~= kind_text(*self, source@));
        out
    }
}

} // verus!
