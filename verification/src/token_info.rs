use crate::token::{Category, Token};
use vstd::prelude::*;

verus! {

/// How eagerly an operator takes the operand on its left: the higher, the
/// tighter.
#[derive(Debug, Clone, Copy, PartialEq, Eq, Structural)]
pub struct Precedence(pub u32);

/// To which side operators of one precedence group.
#[derive(Debug, Clone, Copy, PartialEq, Eq, Structural)]
pub enum Associativity {
    Left,
    Right,
}

pub const START: u32 = 0;

pub const STATEMENT: u32 = 1;

pub const SEQUENCE: u32 = 2;

pub const PAIR: u32 = 3;

pub const CONDITIONAL: u32 = 4;

pub const OR: u32 = 5;

pub const AND: u32 = 6;

pub const COMPARISON: u32 = 7;

pub const SUM: u32 = 8;

pub const PRODUCT: u32 = 9;

pub const PREFIX: u32 = 10;

pub const POSTFIX: u32 = 11;

pub const CALL: u32 = 12;

impl Precedence {
    /// The precedence with which the right operand of an operator of this
    /// precedence is read: the same to the left, so that operators of one
    /// precedence group from the left, and one lower to the right.
    pub open spec fn spec_with(self, assoc: Associativity) -> Precedence {
        match assoc {
            Associativity::Left => self,
            Associativity::Right => Precedence((self.0 - 1) as u32),
        }
    }

    pub fn up(self) -> (result: Precedence)
        requires
            self.0 < u32::MAX,
        ensures
            result.0 == self.0 + 1,
    {
        Precedence(self.0 + 1)
    }

    pub fn down(self) -> (result: Precedence)
        requires
            self.0 > 0,
        ensures
            result.0 == self.0 - 1,
    {
        Precedence(self.0 - 1)
    }

    pub fn with(self, assoc: Associativity) -> (result: Precedence)
        requires
            assoc == Associativity::Right ==> self.0 > 0,
        ensures
            result == self.spec_with(assoc),
    {
        match assoc {
            Associativity::Left => self,
            Associativity::Right => self.down(),
        }
    }

    /// Whether this precedence is lower than `other`.
    pub fn below(self, other: Precedence) -> (result: bool)
        ensures
            result == (self.0 < other.0),
    {
        self.0 < other.0
    }
}

/// The precedence of `token` between two operands. A token that cannot
/// stand there has the lowest, which no expression is read below.
pub open spec fn infix_precedence(token: Token) -> Precedence {
    if token == Token::OpeningParen {
        Precedence(CALL)
    } else if token.in_category(Category::Path) {
        Precedence(POSTFIX)
    } else if token.in_category(Category::ProductOperator) {
        Precedence(PRODUCT)
    } else if token.in_category(Category::SumOperator) {
        Precedence(SUM)
    } else if token.in_category(Category::ComparisonOperator) {
        Precedence(COMPARISON)
    } else if token == Token::And {
        Precedence(AND)
    } else if token == Token::Or {
        Precedence(OR)
    } else if token == Token::Colon {
        Precedence(PAIR)
    } else if token == Token::Comma {
        Precedence(SEQUENCE)
    } else if token == Token::Equals {
        Precedence(STATEMENT)
    } else {
        Precedence(START)
    }
}

/// To which side `token` groups between two operands: sequences and paths
/// to the right, everything else to the left.
pub open spec fn infix_associativity(token: Token) -> Associativity {
    if token == Token::Comma || token.in_category(Category::Path) {
        Associativity::Right
    } else {
        Associativity::Left
    }
}

/// The precedence with which the right operand of `token` is read.
pub open spec fn binding_power(token: Token) -> Precedence {
    infix_precedence(token).spec_with(infix_associativity(token))
}

/// What the parser asks of a token that stands between two operands.
pub trait TokenInfoExt {
    fn precedence(&self) -> Precedence;

    fn associativity(&self) -> Associativity;
}

impl TokenInfoExt for Token {
    fn precedence(&self) -> (result: Precedence)
        ensures
            result == infix_precedence(*self),
    {
        let token = *self;
        if token == Token::OpeningParen {
            Precedence(CALL)
        } else if token.is_in(Category::Path) {
            Precedence(POSTFIX)
        } else if token.is_in(Category::ProductOperator) {
            Precedence(PRODUCT)
        } else if token.is_in(Category::SumOperator) {
            Precedence(SUM)
        } else if token.is_in(Category::ComparisonOperator) {
            Precedence(COMPARISON)
        } else if token == Token::And {
            Precedence(AND)
        } else if token == Token::Or {
            Precedence(OR)
        } else if token == Token::Colon {
            Precedence(PAIR)
        } else if token == Token::Comma {
            Precedence(SEQUENCE)
        } else if token == Token::Equals {
            Precedence(STATEMENT)
        } else {
            Precedence(START)
        }
    }

    fn associativity(&self) -> (result: Associativity)
        ensures
            result == infix_associativity(*self),
    {
        let token = *self;
        if token == Token::Comma || token.is_in(Category::Path) {
            Associativity::Right
        } else {
            Associativity::Left
        }
    }
}

/// The order of the precedences, from the loosest to the tightest.
pub proof fn lemma_precedence_order()
    ensures
        START < STATEMENT < SEQUENCE < PAIR < CONDITIONAL < OR < AND < COMPARISON < SUM < PRODUCT
            < PREFIX < POSTFIX < CALL,
{
}

} // verus!
