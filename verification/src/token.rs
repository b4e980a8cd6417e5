use vstd::prelude::*;

verus! {

/// What the lexer tells apart. A token holds no text: its span says which
/// part of the source it is.
#[derive(Debug, PartialEq, Eq, Structural, Clone, Copy, Hash)]
pub enum Token {
    OpeningBrace,
    ClosingBrace,
    OpeningParen,
    ClosingParen,
    OpeningBracket,
    ClosingBracket,
    Comma,
    Dot,
    Colon,
    ColonColon,
    Semicolon,
    Arrow,
    FatArrow,
    Hash,
    Exclamation,
    Equals,
    PlusEquals,
    MinusEquals,
    AsteriskEquals,
    SlashEquals,
    Plus,
    Minus,
    Asterisk,
    Slash,
    Lesser,
    LesserEqual,
    Greater,
    GreaterEqual,
    EqualsEquals,
    NotEqual,
    And,
    Or,
    Not,
    Struct,
    Function,
    Let,
    Module,
    True,
    False,
    Identifier,
    String,
    Integer,
    Float,
    LineComment,
    Error,
}

/// A set of tokens that play the same part in the grammar.
#[derive(Debug, PartialEq, Eq, Structural, Clone, Copy, Hash)]
pub enum Category {
    /// Punctuation.
    Symbol,
    /// The tokens with which an expression can begin.
    FirstTokenOfExpression,
    /// The tokens that close a bracket.
    ClosingBracket,
    /// The tokens that join the parts of a path.
    Path,
    /// The operators that compute and assign.
    CompoundOperator,
    /// The operators that stand between two operands.
    BinaryOperator,
    /// The operators that stand before one operand.
    UnaryOperator,
    /// Addition and subtraction.
    SumOperator,
    /// Multiplication and division.
    ProductOperator,
    /// The operators that compare two values.
    ComparisonOperator,
    /// The reserved words that are no operators.
    Keyword,
    /// The keywords with which an item begins.
    ItemKeyword,
    /// The tokens that are a value by themselves.
    Literal,
}

impl Token {
    /// Whether this token belongs to `category`.
    pub open spec fn in_category(self, category: Category) -> bool {
        match category {
            Category::Symbol => self == Token::OpeningBrace || self == Token::ClosingBrace || self == Token::OpeningParen || self == Token::ClosingParen || self == Token::OpeningBracket || self == Token::ClosingBracket || self == Token::Comma || self == Token::Dot || self == Token::Colon || self == Token::ColonColon || self == Token::Semicolon || self == Token::Arrow || self == Token::FatArrow || self == Token::Hash || self == Token::Exclamation || self == Token::Equals,
            Category::FirstTokenOfExpression => self == Token::OpeningBrace || self == Token::OpeningParen || self == Token::OpeningBracket || self == Token::Plus || self == Token::Minus || self == Token::Not || self == Token::True || self == Token::False || self == Token::Identifier || self == Token::String || self == Token::Integer || self == Token::Float,
            Category::ClosingBracket => self == Token::ClosingBrace || self == Token::ClosingParen || self == Token::ClosingBracket,
            Category::Path => self == Token::Dot || self == Token::ColonColon,
            Category::CompoundOperator => self == Token::PlusEquals || self == Token::MinusEquals || self == Token::AsteriskEquals || self == Token::SlashEquals,
            Category::BinaryOperator => self == Token::Plus || self == Token::Minus || self == Token::Asterisk || self == Token::Slash || self == Token::Lesser || self == Token::LesserEqual || self == Token::Greater || self == Token::GreaterEqual || self == Token::EqualsEquals || self == Token::NotEqual || self == Token::And || self == Token::Or,
            Category::UnaryOperator => self == Token::Plus || self == Token::Minus || self == Token::Not,
            Category::SumOperator => self == Token::Plus || self == Token::Minus,
            Category::ProductOperator => self == Token::Asterisk || self == Token::Slash,
            Category::ComparisonOperator => self == Token::Lesser || self == Token::LesserEqual || self == Token::Greater || self == Token::GreaterEqual || self == Token::EqualsEquals || self == Token::NotEqual,
            Category::Keyword => self == Token::Struct || self == Token::Function || self == Token::Let || self == Token::Module || self == Token::True || self == Token::False,
            Category::ItemKeyword => self == Token::Struct || self == Token::Function || self == Token::Module,
            Category::Literal => self == Token::True || self == Token::False || self == Token::String || self == Token::Integer || self == Token::Float,
        }
    }

    /// Whether this token belongs to `category`.
    pub fn is_in(self, category: Category) -> (result: bool)
        ensures
            result == self.in_category(category),
    {
        match category {
            Category::Symbol => matches!(self, Token::OpeningBrace | Token::ClosingBrace | Token::OpeningParen | Token::ClosingParen | Token::OpeningBracket | Token::ClosingBracket | Token::Comma | Token::Dot | Token::Colon | Token::ColonColon | Token::Semicolon | Token::Arrow | Token::FatArrow | Token::Hash | Token::Exclamation | Token::Equals),
            Category::FirstTokenOfExpression => matches!(self, Token::OpeningBrace | Token::OpeningParen | Token::OpeningBracket | Token::Plus | Token::Minus | Token::Not | Token::True | Token::False | Token::Identifier | Token::String | Token::Integer | Token::Float),
            Category::ClosingBracket => matches!(self, Token::ClosingBrace | Token::ClosingParen | Token::ClosingBracket),
            Category::Path => matches!(self, Token::Dot | Token::ColonColon),
            Category::CompoundOperator => matches!(self, Token::PlusEquals | Token::MinusEquals | Token::AsteriskEquals | Token::SlashEquals),
            Category::BinaryOperator => matches!(self, Token::Plus | Token::Minus | Token::Asterisk | Token::Slash | Token::Lesser | Token::LesserEqual | Token::Greater | Token::GreaterEqual | Token::EqualsEquals | Token::NotEqual | Token::And | Token::Or),
            Category::UnaryOperator => matches!(self, Token::Plus | Token::Minus | Token::Not),
            Category::SumOperator => matches!(self, Token::Plus | Token::Minus),
            Category::ProductOperator => matches!(self, Token::Asterisk | Token::Slash),
            Category::ComparisonOperator => matches!(self, Token::Lesser | Token::LesserEqual | Token::Greater | Token::GreaterEqual | Token::EqualsEquals | Token::NotEqual),
            Category::Keyword => matches!(self, Token::Struct | Token::Function | Token::Let | Token::Module | Token::True | Token::False),
            Category::ItemKeyword => matches!(self, Token::Struct | Token::Function | Token::Module),
            Category::Literal => matches!(self, Token::True | Token::False | Token::String | Token::Integer | Token::Float),
        }
    }

    /// How a message names this token.
    pub open spec fn text(self) -> Seq<char> {
        match self {
            Token::OpeningBrace => "`{`"@,
            Token::ClosingBrace => "`}`"@,
            Token::OpeningParen => "`(`"@,
            Token::ClosingParen => "`)`"@,
            Token::OpeningBracket => "`[`"@,
            Token::ClosingBracket => "`]`"@,
            Token::Comma => "`,`"@,
            Token::Dot => "`.`"@,
            Token::Colon => "`:`"@,
            Token::ColonColon => "`::`"@,
            Token::Semicolon => "`;`"@,
            Token::Arrow => "`->`"@,
            Token::FatArrow => "`=>`"@,
            Token::Hash => "`#`"@,
            Token::Exclamation => "`!`"@,
            Token::Equals => "`=`"@,
            Token::PlusEquals => "`+=`"@,
            Token::MinusEquals => "`-=`"@,
            Token::AsteriskEquals => "`*=`"@,
            Token::SlashEquals => "`/=`"@,
            Token::Plus => "`+`"@,
            Token::Minus => "`-`"@,
            Token::Asterisk => "`*`"@,
            Token::Slash => "`/`"@,
            Token::Lesser => "`<`"@,
            Token::LesserEqual => "`<=`"@,
            Token::Greater => "`>`"@,
            Token::GreaterEqual => "`>=`"@,
            Token::EqualsEquals => "`==`"@,
            Token::NotEqual => "`!=`"@,
            Token::And => "the keyword `and`"@,
            Token::Or => "the keyword `or`"@,
            Token::Not => "the keyword `not`"@,
            Token::Struct => "the keyword `struct`"@,
            Token::Function => "the keyword `fn`"@,
            Token::Let => "the keyword `let`"@,
            Token::Module => "the keyword `module`"@,
            Token::True => "the keyword `true`"@,
            Token::False => "the keyword `false`"@,
            Token::Identifier => "an identifier"@,
            Token::String => "a string literal"@,
            Token::Integer => "an integer literal"@,
            Token::Float => "a float literal"@,
            Token::LineComment => "a comment"@,
            Token::Error => "<error>"@,
        }
    }

    /// How a message names this token.
    pub fn describe(self) -> (result: &'static str)
        ensures
            result@ == self.text(),
    {
        match self {
            Token::OpeningBrace => "`{`",
            Token::ClosingBrace => "`}`",
            Token::OpeningParen => "`(`",
            Token::ClosingParen => "`)`",
            Token::OpeningBracket => "`[`",
            Token::ClosingBracket => "`]`",
            Token::Comma => "`,`",
            Token::Dot => "`.`",
            Token::Colon => "`:`",
            Token::ColonColon => "`::`",
            Token::Semicolon => "`;`",
            Token::Arrow => "`->`",
            Token::FatArrow => "`=>`",
            Token::Hash => "`#`",
            Token::Exclamation => "`!`",
            Token::Equals => "`=`",
            Token::PlusEquals => "`+=`",
            Token::MinusEquals => "`-=`",
            Token::AsteriskEquals => "`*=`",
            Token::SlashEquals => "`/=`",
            Token::Plus => "`+`",
            Token::Minus => "`-`",
            Token::Asterisk => "`*`",
            Token::Slash => "`/`",
            Token::Lesser => "`<`",
            Token::LesserEqual => "`<=`",
            Token::Greater => "`>`",
            Token::GreaterEqual => "`>=`",
            Token::EqualsEquals => "`==`",
            Token::NotEqual => "`!=`",
            Token::And => "the keyword `and`",
            Token::Or => "the keyword `or`",
            Token::Not => "the keyword `not`",
            Token::Struct => "the keyword `struct`",
            Token::Function => "the keyword `fn`",
            Token::Let => "the keyword `let`",
            Token::Module => "the keyword `module`",
            Token::True => "the keyword `true`",
            Token::False => "the keyword `false`",
            Token::Identifier => "an identifier",
            Token::String => "a string literal",
            Token::Integer => "an integer literal",
            Token::Float => "a float literal",
            Token::LineComment => "a comment",
            Token::Error => "<error>",
        }
    }
}

impl Category {
    /// The tokens of this category, in the order of the list of all tokens.
    pub open spec fn members(self) -> Seq<Token> {
        match self {
            Category::Symbol => seq![Token::OpeningBrace, Token::ClosingBrace, Token::OpeningParen, Token::ClosingParen, Token::OpeningBracket, Token::ClosingBracket, Token::Comma, Token::Dot, Token::Colon, Token::ColonColon, Token::Semicolon, Token::Arrow, Token::FatArrow, Token::Hash, Token::Exclamation, Token::Equals],
            Category::FirstTokenOfExpression => seq![Token::OpeningBrace, Token::OpeningParen, Token::OpeningBracket, Token::Plus, Token::Minus, Token::Not, Token::True, Token::False, Token::Identifier, Token::String, Token::Integer, Token::Float],
            Category::ClosingBracket => seq![Token::ClosingBrace, Token::ClosingParen, Token::ClosingBracket],
            Category::Path => seq![Token::Dot, Token::ColonColon],
            Category::CompoundOperator => seq![Token::PlusEquals, Token::MinusEquals, Token::AsteriskEquals, Token::SlashEquals],
            Category::BinaryOperator => seq![Token::Plus, Token::Minus, Token::Asterisk, Token::Slash, Token::Lesser, Token::LesserEqual, Token::Greater, Token::GreaterEqual, Token::EqualsEquals, Token::NotEqual, Token::And, Token::Or],
            Category::UnaryOperator => seq![Token::Plus, Token::Minus, Token::Not],
            Category::SumOperator => seq![Token::Plus, Token::Minus],
            Category::ProductOperator => seq![Token::Asterisk, Token::Slash],
            Category::ComparisonOperator => seq![Token::Lesser, Token::LesserEqual, Token::Greater, Token::GreaterEqual, Token::EqualsEquals, Token::NotEqual],
            Category::Keyword => seq![Token::Struct, Token::Function, Token::Let, Token::Module, Token::True, Token::False],
            Category::ItemKeyword => seq![Token::Struct, Token::Function, Token::Module],
            Category::Literal => seq![Token::True, Token::False, Token::String, Token::Integer, Token::Float],
        }
    }

    /// The tokens of this category.
    pub fn tokens(self) -> (result: Vec<Token>)
        ensures
            result@ == self.members(),
    {
        match self {
            Category::Symbol => vec![Token::OpeningBrace, Token::ClosingBrace, Token::OpeningParen, Token::ClosingParen, Token::OpeningBracket, Token::ClosingBracket, Token::Comma, Token::Dot, Token::Colon, Token::ColonColon, Token::Semicolon, Token::Arrow, Token::FatArrow, Token::Hash, Token::Exclamation, Token::Equals],
            Category::FirstTokenOfExpression => vec![Token::OpeningBrace, Token::OpeningParen, Token::OpeningBracket, Token::Plus, Token::Minus, Token::Not, Token::True, Token::False, Token::Identifier, Token::String, Token::Integer, Token::Float],
            Category::ClosingBracket => vec![Token::ClosingBrace, Token::ClosingParen, Token::ClosingBracket],
            Category::Path => vec![Token::Dot, Token::ColonColon],
            Category::CompoundOperator => vec![Token::PlusEquals, Token::MinusEquals, Token::AsteriskEquals, Token::SlashEquals],
            Category::BinaryOperator => vec![Token::Plus, Token::Minus, Token::Asterisk, Token::Slash, Token::Lesser, Token::LesserEqual, Token::Greater, Token::GreaterEqual, Token::EqualsEquals, Token::NotEqual, Token::And, Token::Or],
            Category::UnaryOperator => vec![Token::Plus, Token::Minus, Token::Not],
            Category::SumOperator => vec![Token::Plus, Token::Minus],
            Category::ProductOperator => vec![Token::Asterisk, Token::Slash],
            Category::ComparisonOperator => vec![Token::Lesser, Token::LesserEqual, Token::Greater, Token::GreaterEqual, Token::EqualsEquals, Token::NotEqual],
            Category::Keyword => vec![Token::Struct, Token::Function, Token::Let, Token::Module, Token::True, Token::False],
            Category::ItemKeyword => vec![Token::Struct, Token::Function, Token::Module],
            Category::Literal => vec![Token::True, Token::False, Token::String, Token::Integer, Token::Float],
        }
    }
}

/// A category holds a token exactly if the token is among its members.
pub proof fn lemma_members_are_the_category(token: Token, category: Category)
    ensures
        token.in_category(category) <==> category.members().contains(token),
{
    let members = category.members();
    if token.in_category(category) {
        let index = choose|index: int| 0 <= index < members.len() && members[index] == token;
        assert(members[index] == token);
    }
}

} // verus!
