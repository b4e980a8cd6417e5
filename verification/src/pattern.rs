use crate::error::{mismatch, DiagnosticTerm, Error};
use crate::span::SpannedToken;
use crate::token::{Category, Token};
use vstd::prelude::*;

verus! {

/// What a token is held against: one token, or any token of a category.
#[derive(Debug, Clone, Copy, PartialEq, Eq, Structural)]
pub enum Pattern {
    Token(Token),
    AnyOf(Category),
}

impl Pattern {
    /// Whether this pattern accepts `token`.
    pub open spec fn accepts(self, token: Token) -> bool {
        match self {
            Pattern::Token(expected) => expected == token,
            Pattern::AnyOf(category) => token.in_category(category),
        }
    }

    /// How a diagnostic names what this pattern expects.
    pub open spec fn term(self) -> DiagnosticTerm {
        match self {
            Pattern::Token(expected) => DiagnosticTerm::Token(expected),
            Pattern::AnyOf(category) => DiagnosticTerm::AnyOf(category),
        }
    }

    /// Whether this pattern accepts `token`.
    pub fn matches(&self, token: Token) -> (result: bool)
        ensures
            result == self.accepts(token),
    {
        match self {
            Pattern::Token(expected) => *expected == token,
            Pattern::AnyOf(category) => token.is_in(*category),
        }
    }

    /// How a diagnostic names what this pattern expects.
    pub fn into_diagnostic(&self) -> (result: DiagnosticTerm)
        ensures
            result == self.term(),
    {
        match self {
            Pattern::Token(expected) => DiagnosticTerm::Token(*expected),
            Pattern::AnyOf(category) => DiagnosticTerm::AnyOf(*category),
        }
    }

    /// `token` where this pattern accepts it, and else the mismatch, at the
    /// place of `token`.
    pub fn match_pattern(&self, token: SpannedToken) -> (result: Result<SpannedToken, Error>)
        ensures
            result == if self.accepts(token.1) {
                Ok::<SpannedToken, Error>(token)
            } else {
                Err(mismatch(token.0, self.term(), token))
            },
    {
        if self.matches(token.1) {
            Ok(token)
        } else {
            Err(Error::mismatch(token.0, self.into_diagnostic(), token))
        }
    }
}

} // verus!
