use crate::error::{Diagnostic, DiagnosticTerm, Error, ErrorKind, Unexpected};
use crate::token::Token;
use vstd::prelude::*;
use vstd::string::*;

verus! {

/// The first problem of a source, for callers that stop at it: a token or
/// the end of the source where it should not be, or one token where
/// another was expected. `None` stands for the end of the source.
#[derive(Debug, Clone, Copy, PartialEq, Eq)]
pub enum ParseError {
    Unexpected(Option<Token>),
    Expected { expected: Option<Token>, found: Option<Token> },
}

/// How a message names `found`: the token by its name, and the end of the
/// source as `EOF`.
pub open spec fn token_or_eof_text(found: Option<Token>) -> Seq<char> {
    match found {
        Some(token) => token.text(),
        None => "EOF"@,
    }
}

/// How a message names `found`.
pub fn token_or_eof(found: &Option<Token>) -> (result: &'static str)
    ensures
        result@ == token_or_eof_text(*found),
{
    match found {
        Some(token) => token.describe(),
        None => "EOF",
    }
}

/// The token that `term` is, if it is one by its kind: a word of the
/// source is an identifier, and what is no token is an error token.
pub open spec fn token_of(term: DiagnosticTerm) -> Option<Token> {
    match term {
        DiagnosticTerm::Token(token) => Some(token),
        DiagnosticTerm::Word(_) => Some(Token::Identifier),
        DiagnosticTerm::Symbol(_) => Some(Token::Error),
        DiagnosticTerm::AnyOf(_) => None,
        DiagnosticTerm::Eof => None,
    }
}

/// What `error` is for a caller that stops at the first problem. A
/// mismatch with one expected token keeps both sides; every other problem
/// is what was found, unexpected.
pub open spec fn first_problem(error: Error) -> ParseError {
    match error.kind {
        ErrorKind::Simple(Unexpected::Token(token)) => ParseError::Unexpected(Some(token)),
        ErrorKind::Simple(Unexpected::Eof) => ParseError::Unexpected(None),
        ErrorKind::Diagnostic(Diagnostic::Mismatch { expected, found }) => match expected {
            DiagnosticTerm::Token(token) => ParseError::Expected {
                expected: Some(token),
                found: token_of(found),
            },
            _ => ParseError::Unexpected(token_of(found)),
        },
        ErrorKind::Diagnostic(_) => ParseError::Unexpected(None),
    }
}

impl ParseError {
    pub fn eof() -> (result: ParseError)
        ensures
            result == ParseError::Unexpected(None),
    {
        ParseError::Unexpected(None)
    }

    pub fn unexpected_token(token: Token) -> (result: ParseError)
        ensures
            result == ParseError::Unexpected(Some(token)),
    {
        ParseError::Unexpected(Some(token))
    }

    pub fn expected(expected: Token, found: Option<Token>) -> (result: ParseError)
        ensures
            result == (ParseError::Expected { expected: Some(expected), found }),
    {
        ParseError::Expected { expected: Some(expected), found }
    }

    /// What `error` is for a caller that stops at the first problem.
    pub fn from_error(error: &Error) -> (result: ParseError)
        ensures
            result == first_problem(*error),
    {
        match error.kind {
            ErrorKind::Simple(Unexpected::Token(token)) => ParseError::Unexpected(Some(token)),
            ErrorKind::Simple(Unexpected::Eof) => ParseError::Unexpected(None),
            ErrorKind::Diagnostic(Diagnostic::Mismatch { expected, found }) => {
                let seen = match found {
                    DiagnosticTerm::Token(token) => Some(token),
                    DiagnosticTerm::Word(_) => Some(Token::Identifier),
                    DiagnosticTerm::Symbol(_) => Some(Token::Error),
                    DiagnosticTerm::AnyOf(_) => None,
                    DiagnosticTerm::Eof => None,
                };
                match expected {
                    DiagnosticTerm::Token(token) => ParseError::Expected {
                        expected: Some(token),
                        found: seen,
                    },
                    _ => ParseError::Unexpected(seen),
                }
            },
            ErrorKind::Diagnostic(_) => ParseError::Unexpected(None),
        }
    }

    /// The words for this problem.
    pub open spec fn text(self) -> Seq<char> {
        match self {
            ParseError::Unexpected(found) => "Unexpected "@ + token_or_eof_text(found),
            ParseError::Expected { expected, found } => "Expected "@ + token_or_eof_text(expected)
                + ", but found "@ + token_or_eof_text(found),
        }
    }

    /// The words for this problem.
    pub fn describe(&self) -> (result: String)
        ensures
            result@ == self.text(),
    {
        match self {
            ParseError::Unexpected(found) => {
                let mut out = String::from_str("Unexpected ");
                out.append(token_or_eof(found));
                out
            },
            ParseError::Expected { expected, found } => {
                let mut out = String::from_str("Expected ");
                out.append(token_or_eof(expected));
                out.append(", but found ");
                out.append(token_or_eof(found));
                out
            },
        }
    }
}

} // verus!
