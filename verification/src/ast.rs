use crate::span::{Span, Spanned, SpannedToken};
use crate::token::Token;
use vstd::prelude::*;

verus! {

/// An operator that stands before its operand.
#[derive(Debug, Clone, Copy, PartialEq, Eq, Structural)]
pub enum UnaryOperator {
    Not,
    Positive,
    Negative,
}

/// An operator that stands between its operands.
#[derive(Debug, Clone, Copy, PartialEq, Eq, Structural, Hash)]
pub enum BinaryOperator {
    Add,
    Subtract,
    Multiply,
    Divide,
    LessThan,
    LessThanOrEqual,
    GreaterThan,
    GreaterThanOrEqual,
    Equal,
    NotEqual,
    And,
    Or,
}

/// What an assignment assigns to.
#[derive(Debug, Clone, Copy, PartialEq, Eq, Structural)]
pub enum AssignmentType {
    /// `global x = 2;`
    Global,
    /// `let x = 2;`
    Scope,
    /// `x = 2;`
    Value,
}

/// How the two parts of a path are joined.
#[derive(Debug, Clone, Copy, PartialEq, Eq, Structural)]
pub enum PathAccess {
    /// `::`
    Scope,
    /// `.`
    Member,
}

/// An operator and the place where it was written.
#[derive(Debug, Clone, Copy, PartialEq, Eq)]
pub struct OperatorInfo<T> {
    pub operator: T,
    pub span: Span,
}

/// A token that is not what a conversion asked for.
#[derive(Debug, Clone, Copy)]
pub struct TryFromTokenError {
    pub token: Token,
    pub target_name: &'static str,
}

impl TryFromTokenError {
    pub fn token(&self) -> (result: Token)
        ensures
            result == self.token,
    {
        self.token
    }

    pub fn target_name(&self) -> (result: &'static str)
        ensures
            result == self.target_name,
    {
        self.target_name
    }
}

/// The unary operator that `token` is, if it is one.
pub open spec fn unary_of(token: Token) -> Option<UnaryOperator> {
    match token {
        Token::Not => Some(UnaryOperator::Not),
        Token::Plus => Some(UnaryOperator::Positive),
        Token::Minus => Some(UnaryOperator::Negative),
        _ => None,
    }
}

/// The binary operator that `token` is, if it is one.
pub open spec fn binary_of(token: Token) -> Option<BinaryOperator> {
    match token {
        Token::Plus => Some(BinaryOperator::Add),
        Token::Minus => Some(BinaryOperator::Subtract),
        Token::Asterisk => Some(BinaryOperator::Multiply),
        Token::Slash => Some(BinaryOperator::Divide),
        Token::Lesser => Some(BinaryOperator::LessThan),
        Token::LesserEqual => Some(BinaryOperator::LessThanOrEqual),
        Token::Greater => Some(BinaryOperator::GreaterThan),
        Token::GreaterEqual => Some(BinaryOperator::GreaterThanOrEqual),
        Token::EqualsEquals => Some(BinaryOperator::Equal),
        Token::NotEqual => Some(BinaryOperator::NotEqual),
        Token::And => Some(BinaryOperator::And),
        Token::Or => Some(BinaryOperator::Or),
        _ => None,
    }
}

impl UnaryOperator {
    /// The operator that `value` is, or the token back where it is none.
    pub fn try_from(value: Token) -> (result: Result<UnaryOperator, TryFromTokenError>)
        ensures
            match result {
                Ok(operator) => unary_of(value) == Some(operator),
                Err(error) => unary_of(value) is None && error.token == value
                    && error.target_name@ == "UnaryOperator"@,
            },
    {
        match value {
            Token::Not => Ok(UnaryOperator::Not),
            Token::Plus => Ok(UnaryOperator::Positive),
            Token::Minus => Ok(UnaryOperator::Negative),
            token => Err(TryFromTokenError { token, target_name: "UnaryOperator" }),
        }
    }
}

impl BinaryOperator {
    /// The operator that `value` is, or the token back where it is none.
    pub fn try_from(value: Token) -> (result: Result<BinaryOperator, TryFromTokenError>)
        ensures
            match result {
                Ok(operator) => binary_of(value) == Some(operator),
                Err(error) => binary_of(value) is None && error.token == value
                    && error.target_name@ == "BinaryOperator"@,
            },
    {
        match value {
            Token::Plus => Ok(BinaryOperator::Add),
            Token::Minus => Ok(BinaryOperator::Subtract),
            Token::Asterisk => Ok(BinaryOperator::Multiply),
            Token::Slash => Ok(BinaryOperator::Divide),
            Token::Lesser => Ok(BinaryOperator::LessThan),
            Token::LesserEqual => Ok(BinaryOperator::LessThanOrEqual),
            Token::Greater => Ok(BinaryOperator::GreaterThan),
            Token::GreaterEqual => Ok(BinaryOperator::GreaterThanOrEqual),
            Token::EqualsEquals => Ok(BinaryOperator::Equal),
            Token::NotEqual => Ok(BinaryOperator::NotEqual),
            Token::And => Ok(BinaryOperator::And),
            Token::Or => Ok(BinaryOperator::Or),
            token => Err(TryFromTokenError { token, target_name: "BinaryOperator" }),
        }
    }
}

/// A node of the syntax tree. Every node owns its children and knows the
/// piece of the source that it was read from.
#[derive(Debug)]
#[allow(inconsistent_fields)]
pub enum AstNode {
    Bool(Span, bool),
    String(Span),
    Integer(Span),
    Float(Span),
    Identifier(Span),
    Path { span: Span, left: Box<AstNode>, access: PathAccess, right: Box<AstNode> },
    Unary { span: Span, operator: OperatorInfo<UnaryOperator>, operand: Box<AstNode> },
    Binary {
        span: Span,
        operator: OperatorInfo<BinaryOperator>,
        left: Box<AstNode>,
        right: Box<AstNode>,
    },
    /// A call. The arguments are one expression, a sequence where there are
    /// several.
    Call { span: Span, subject: Box<AstNode>, arguments: Option<Box<AstNode>> },
    Pair { span: Span, left: Box<AstNode>, right: Box<AstNode> },
    /// Two things with a comma between them, or one with a comma behind it.
    Sequence { span: Span, left: Box<AstNode>, right: Option<Box<AstNode>> },
    Assignment { span: Span, ty: AssignmentType, pattern: Box<AstNode>, value: Box<AstNode> },
    /// The declaration of a module. `name` is the span of its name.
    Module { span: Span, name: Span },
    Struct { span: Span, name: Span, fields: Box<AstNode> },
    /// A function. The items of its body are chained as a sequence.
    Function {
        span: Span,
        name: Span,
        parameters: Option<Box<AstNode>>,
        return_type: Option<Box<AstNode>>,
        body: Option<Box<AstNode>>,
    },
    /// The items between two braces, chained as a sequence.
    Block { span: Span, items: Option<Box<AstNode>> },
    ItemMetadata { span: Span, inner: Box<AstNode>, subject: Box<AstNode> },
    ModuleMetadata { span: Span, inner: Box<AstNode> },
    /// What stands where nothing could be read.
    Error(Span),
}

/// A type with a value that stands for an error.
pub trait ErrorVariant: Sized {
    spec fn spec_is_error(&self) -> bool;

    fn error(span: Span) -> (result: Self)
        ensures
            result.spec_is_error(),
    ;

    fn is_error(&self) -> (result: bool)
        ensures
            result == self.spec_is_error(),
    ;
}

impl ErrorVariant for AstNode {
    open spec fn spec_is_error(&self) -> bool {
        self is Error
    }

    fn error(span: Span) -> (result: AstNode) {
        AstNode::Error(span)
    }

    fn is_error(&self) -> (result: bool) {
        matches!(self, AstNode::Error(_))
    }
}

/// The elements of a chain of sequences, from left to right.
pub open spec fn flat(node: AstNode) -> Seq<AstNode>
    decreases node,
{
    match node {
        AstNode::Sequence { span, left, right } => match right {
            Some(rest) => flat(*left) + flat(*rest),
            None => flat(*left),
        },
        _ => seq![node],
    }
}

impl AstNode {
    /// The piece of the source that this node was read from.
    pub open spec fn spec_span(self) -> Span {
        match self {
            AstNode::Bool(span, _) => span,
            AstNode::String(span) => span,
            AstNode::Integer(span) => span,
            AstNode::Float(span) => span,
            AstNode::Identifier(span) => span,
            AstNode::Path { span, .. } => span,
            AstNode::Unary { span, .. } => span,
            AstNode::Binary { span, .. } => span,
            AstNode::Call { span, .. } => span,
            AstNode::Pair { span, .. } => span,
            AstNode::Sequence { span, .. } => span,
            AstNode::Assignment { span, .. } => span,
            AstNode::Module { span, .. } => span,
            AstNode::Struct { span, .. } => span,
            AstNode::Function { span, .. } => span,
            AstNode::Block { span, .. } => span,
            AstNode::ItemMetadata { span, .. } => span,
            AstNode::ModuleMetadata { span, .. } => span,
            AstNode::Error(span) => span,
        }
    }

}

impl Spanned for AstNode {
    open spec fn spanned(&self) -> Span {
        self.spec_span()
    }

    fn span(&self) -> (result: Span) {
        match self {
            AstNode::Bool(span, _) => *span,
            AstNode::String(span) => *span,
            AstNode::Integer(span) => *span,
            AstNode::Float(span) => *span,
            AstNode::Identifier(span) => *span,
            AstNode::Path { span, .. } => *span,
            AstNode::Unary { span, .. } => *span,
            AstNode::Binary { span, .. } => *span,
            AstNode::Call { span, .. } => *span,
            AstNode::Pair { span, .. } => *span,
            AstNode::Sequence { span, .. } => *span,
            AstNode::Assignment { span, .. } => *span,
            AstNode::Module { span, .. } => *span,
            AstNode::Struct { span, .. } => *span,
            AstNode::Function { span, .. } => *span,
            AstNode::Block { span, .. } => *span,
            AstNode::ItemMetadata { span, .. } => *span,
            AstNode::ModuleMetadata { span, .. } => *span,
            AstNode::Error(span) => *span,
        }
    }

}

impl AstNode {
    /// What a message calls a node of this kind.
    pub open spec fn spec_name(self) -> Seq<char> {
        match self {
            AstNode::Bool(..) => "boolean"@,
            AstNode::String(..) => "string literal"@,
            AstNode::Float(..) => "float literal"@,
            AstNode::Integer(..) => "integer literal"@,
            AstNode::Identifier(..) => "identifier"@,
            AstNode::Path { .. } => "path"@,
            AstNode::Unary { .. } => "expression"@,
            AstNode::Binary { .. } => "expression"@,
            AstNode::Call { .. } => "function call"@,
            AstNode::Pair { .. } => "pair"@,
            AstNode::Sequence { .. } => "sequence"@,
            AstNode::Module { .. } => "module declaration"@,
            AstNode::Struct { .. } => "struct definition"@,
            AstNode::Function { .. } => "function definition"@,
            AstNode::Block { .. } => "block"@,
            AstNode::Assignment { .. } => "assignment"@,
            AstNode::ItemMetadata { .. } => "item metadata"@,
            AstNode::ModuleMetadata { .. } => "module metadata"@,
            AstNode::Error(..) => "error"@,
        }
    }

    /// What a message calls a node of this kind.
    pub fn name(&self) -> (result: &'static str)
        ensures
            result@ == self.spec_name(),
    {
        match self {
            AstNode::Bool(..) => "boolean",
            AstNode::String(..) => "string literal",
            AstNode::Float(..) => "float literal",
            AstNode::Integer(..) => "integer literal",
            AstNode::Identifier(..) => "identifier",
            AstNode::Path { .. } => "path",
            AstNode::Unary { .. } => "expression",
            AstNode::Binary { .. } => "expression",
            AstNode::Call { .. } => "function call",
            AstNode::Pair { .. } => "pair",
            AstNode::Sequence { .. } => "sequence",
            AstNode::Module { .. } => "module declaration",
            AstNode::Struct { .. } => "struct definition",
            AstNode::Function { .. } => "function definition",
            AstNode::Block { .. } => "block",
            AstNode::Assignment { .. } => "assignment",
            AstNode::ItemMetadata { .. } => "item metadata",
            AstNode::ModuleMetadata { .. } => "module metadata",
            AstNode::Error(..) => "error",
        }
    }

    /// Appends to `buffer` the elements of this chain of sequences, from
    /// left to right. A node that is no sequence is its own one element.
    pub fn flatten_sequence(self, buffer: &mut Vec<AstNode>)
        ensures
            final(buffer)@ == old(buffer)@ + flat(self),
        decreases self,
    {
        match self {
            AstNode::Sequence { span, left, right } => {
                let ghost middle_of = old(buffer)@ + flat(*left);
                left.flatten_sequence(buffer);
                match right {
                    Some(rest) => {
                        rest.flatten_sequence(buffer);
                        assert(buffer@ =~= old(buffer)@ + (flat(*left) + flat(*rest)));
                    },
                    None => {},
                }
            },
            other => {
                buffer.push(other);
                assert(buffer@ =~= old(buffer)@ + seq![other]);
            },
        }
    }
}

/// The leaf that `token` is by itself, if it is a literal or an identifier.
pub open spec fn atom_of(token: SpannedToken) -> Option<AstNode> {
    match token.1 {
        Token::True => Some(AstNode::Bool(token.0, true)),
        Token::False => Some(AstNode::Bool(token.0, false)),
        Token::Integer => Some(AstNode::Integer(token.0)),
        Token::Float => Some(AstNode::Float(token.0)),
        Token::String => Some(AstNode::String(token.0)),
        Token::Identifier => Some(AstNode::Identifier(token.0)),
        _ => None,
    }
}

/// The leaf that `token` is by itself, if it is a literal or an identifier.
pub fn atom(token: SpannedToken) -> (result: Option<AstNode>)
    ensures
        result == atom_of(token),
{
    match token.1 {
        Token::True => Some(AstNode::Bool(token.0, true)),
        Token::False => Some(AstNode::Bool(token.0, false)),
        Token::Integer => Some(AstNode::Integer(token.0)),
        Token::Float => Some(AstNode::Float(token.0)),
        Token::String => Some(AstNode::String(token.0)),
        Token::Identifier => Some(AstNode::Identifier(token.0)),
        _ => None,
    }
}

} // verus!
