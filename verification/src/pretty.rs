use crate::ast::{AssignmentType, AstNode, BinaryOperator, PathAccess, UnaryOperator};
use crate::error::{bytes_of, push_slice, push_str, slice_of};
use crate::position::{push_repeated, repeated};
use crate::span::Span;
use vstd::prelude::*;
use vstd::string::*;

verus! {

/// The name of a unary operator.
pub open spec fn unary_name(operator: UnaryOperator) -> Seq<char> {
    match operator {
        UnaryOperator::Not => "Not"@,
        UnaryOperator::Positive => "Positive"@,
        UnaryOperator::Negative => "Negative"@,
    }
}

/// The name of a binary operator.
pub open spec fn binary_name(operator: BinaryOperator) -> Seq<char> {
    match operator {
        BinaryOperator::Add => "Add"@,
        BinaryOperator::Subtract => "Subtract"@,
        BinaryOperator::Multiply => "Multiply"@,
        BinaryOperator::Divide => "Divide"@,
        BinaryOperator::LessThan => "LessThan"@,
        BinaryOperator::LessThanOrEqual => "LessThanOrEqual"@,
        BinaryOperator::GreaterThan => "GreaterThan"@,
        BinaryOperator::GreaterThanOrEqual => "GreaterThanOrEqual"@,
        BinaryOperator::Equal => "Equal"@,
        BinaryOperator::NotEqual => "NotEqual"@,
        BinaryOperator::And => "And"@,
        BinaryOperator::Or => "Or"@,
    }
}

/// The name of a way to join a path.
pub open spec fn access_name(access: PathAccess) -> Seq<char> {
    match access {
        PathAccess::Scope => "Scope"@,
        PathAccess::Member => "Member"@,
    }
}

/// The name of a kind of assignment.
pub open spec fn assignment_name(ty: AssignmentType) -> Seq<char> {
    match ty {
        AssignmentType::Global => "Global"@,
        AssignmentType::Scope => "Scope"@,
        AssignmentType::Value => "Value"@,
    }
}

impl UnaryOperator {
    pub fn name(&self) -> (result: &'static str)
        ensures
            result@ == unary_name(*self),
    {
        match self {
            UnaryOperator::Not => "Not",
            UnaryOperator::Positive => "Positive",
            UnaryOperator::Negative => "Negative",
        }
    }
}

impl BinaryOperator {
    pub fn name(&self) -> (result: &'static str)
        ensures
            result@ == binary_name(*self),
    {
        match self {
            BinaryOperator::Add => "Add",
            BinaryOperator::Subtract => "Subtract",
            BinaryOperator::Multiply => "Multiply",
            BinaryOperator::Divide => "Divide",
            BinaryOperator::LessThan => "LessThan",
            BinaryOperator::LessThanOrEqual => "LessThanOrEqual",
            BinaryOperator::GreaterThan => "GreaterThan",
            BinaryOperator::GreaterThanOrEqual => "GreaterThanOrEqual",
            BinaryOperator::Equal => "Equal",
            BinaryOperator::NotEqual => "NotEqual",
            BinaryOperator::And => "And",
            BinaryOperator::Or => "Or",
        }
    }
}

impl PathAccess {
    pub fn name(&self) -> (result: &'static str)
        ensures
            result@ == access_name(*self),
    {
        match self {
            PathAccess::Scope => "Scope",
            PathAccess::Member => "Member",
        }
    }
}

impl AssignmentType {
    pub fn name(&self) -> (result: &'static str)
        ensures
            result@ == assignment_name(*self),
    {
        match self {
            AssignmentType::Global => "Global",
            AssignmentType::Scope => "Scope",
            AssignmentType::Value => "Value",
        }
    }
}

/// One level deeper than `indent`, as far as the machine counts.
pub open spec fn deeper(indent: usize) -> usize {
    if indent < usize::MAX {
        (indent + 1) as usize
    } else {
        indent
    }
}

/// A line of an outline: a line end, two spaces for each level of
/// `indent`, and `text`.
pub open spec fn outline(indent: usize, text: Seq<char>) -> Seq<u8> {
    seq![10u8] + repeated(32u8, indent as int) + repeated(32u8, indent as int) + bytes_of(text)
}

/// A child of a node in an outline: a line with its label, and the child
/// one level deeper.
pub open spec fn labelled(source: Seq<u8>, label: Seq<char>, child: AstNode, indent: usize) -> Seq<
    u8,
>
    decreases child, 1nat,
{
    outline(indent, label) + outline_of(source, child, deeper(indent))
}

/// A child that a node may have: nothing where it has none.
pub open spec fn optional(
    source: Seq<u8>,
    label: Seq<char>,
    child: Option<Box<AstNode>>,
    indent: usize,
) -> Seq<u8>
    decreases child, 2nat,
{
    match child {
        Some(node) => labelled(source, label, *node, indent),
        None => Seq::empty(),
    }
}

/// The outline of `node`. A leaf is its text in `source`. Every other node
/// is a line with its name and, one level deeper, its operator and its
/// children under their labels.
pub open spec fn outline_of(source: Seq<u8>, node: AstNode, indent: usize) -> Seq<u8>
    decreases node, 0nat,
{
    let inner = deeper(indent);
    match node {
        AstNode::Bool(_, value) => if value {
            bytes_of("true"@)
        } else {
            bytes_of("false"@)
        },
        AstNode::String(span) => slice_of(source, span),
        AstNode::Integer(span) => slice_of(source, span),
        AstNode::Float(span) => slice_of(source, span),
        AstNode::Identifier(span) => slice_of(source, span),
        AstNode::Error(_) => bytes_of("<error>"@),
        AstNode::Path { left, access, right, .. } => outline(indent, "Path"@) + labelled(
            source,
            "Left: "@,
            *left,
            inner,
        ) + outline(inner, access_name(access)) + labelled(source, "Right: "@, *right, inner),
        AstNode::Unary { operator, operand, .. } => outline(indent, "Unary"@) + outline(
            inner,
            "Operator: "@ + unary_name(operator.operator),
        ) + labelled(source, "Operand: "@, *operand, inner),
        AstNode::Binary { operator, left, right, .. } => outline(indent, "BinaryExpression"@)
            + labelled(source, "Left: "@, *left, inner) + outline(
            inner,
            "Operator: "@ + binary_name(operator.operator),
        ) + labelled(source, "Right: "@, *right, inner),
        AstNode::Call { subject, arguments, .. } => outline(indent, "Call"@) + labelled(
            source,
            "Subject: "@,
            *subject,
            inner,
        ) + optional(source, "Arguments: "@, arguments, inner),
        AstNode::Pair { left, right, .. } => outline(indent, "Pair"@) + labelled(
            source,
            "Left: "@,
            *left,
            inner,
        ) + labelled(source, "Right: "@, *right, inner),
        AstNode::Sequence { left, right, .. } => outline(indent, "Sequence"@) + labelled(
            source,
            "First: "@,
            *left,
            inner,
        ) + optional(source, "Rest: "@, right, inner),
        AstNode::Assignment { ty, pattern, value, .. } => outline(indent, "Assignment"@)
            + outline(inner, "Kind: "@ + assignment_name(ty)) + labelled(
            source,
            "Pattern: "@,
            *pattern,
            inner,
        ) + labelled(source, "Value: "@, *value, inner),
        AstNode::Module { name, .. } => outline(indent, "Module "@) + slice_of(source, name),
        AstNode::Struct { name, fields, .. } => outline(indent, "Struct "@) + slice_of(
            source,
            name,
        ) + labelled(source, "Fields: "@, *fields, inner),
        AstNode::Function { name, parameters, return_type, body, .. } => outline(
            indent,
            "Function "@,
        ) + slice_of(source, name) + optional(source, "Parameters: "@, parameters, inner)
            + optional(source, "Returns: "@, return_type, inner) + optional(
            source,
            "Body: "@,
            body,
            inner,
        ),
        AstNode::Block { items, .. } => outline(indent, "Block"@) + optional(
            source,
            "Items: "@,
            items,
            inner,
        ),
        AstNode::ItemMetadata { inner: about, subject, .. } => outline(indent, "ItemMetadata"@)
            + labelled(source, "Inner: "@, *about, inner) + labelled(
            source,
            "Subject: "@,
            *subject,
            inner,
        ),
        AstNode::ModuleMetadata { inner: about, .. } => outline(indent, "ModuleMetadata"@)
            + labelled(source, "Inner: "@, *about, inner),
    }
}

/// Writes a syntax tree as an outline, with the text of its leaves taken
/// from the source.
pub struct Pretty<'i> {
    pub input: &'i str,
    pub indent: usize,
    pub buffer: Vec<u8>,
}

impl<'i> Pretty<'i> {
    /// The bytes of the source.
    pub open spec fn source(&self) -> Seq<u8> {
        self.input.spec_bytes()
    }

    pub fn new(input: &'i str) -> (result: Pretty<'i>)
        ensures
            result.input == input,
            result.indent == 0,
            result.buffer@ == Seq::<u8>::empty(),
    {
        Pretty { input, indent: 0, buffer: Vec::new() }
    }

    /// Appends `item` to what was written.
    pub fn write(&mut self, item: &str)
        ensures
            final(self).input == old(self).input,
            final(self).indent == old(self).indent,
            final(self).buffer@ == old(self).buffer@ + bytes_of(item@),
    {
        push_str(&mut self.buffer, item);
    }

    /// Appends a line end, two spaces for each level of indentation, and
    /// `item`.
    pub fn write_line(&mut self, item: &str)
        ensures
            final(self).input == old(self).input,
            final(self).indent == old(self).indent,
            final(self).buffer@ == old(self).buffer@ + outline(old(self).indent, item@),
    {
        self.buffer.push(10u8);
        push_repeated(&mut self.buffer, 32u8, self.indent);
        push_repeated(&mut self.buffer, 32u8, self.indent);
        push_str(&mut self.buffer, item);
        assert(self.buffer@ =~= old(self).buffer@ + outline(old(self).indent, item@));
    }

    /// The text of the source that `span` names.
    pub fn resolve_span(&self, span: &Span) -> (result: Vec<u8>)
        ensures
            result@ == slice_of(self.source(), *span),
    {
        let mut out: Vec<u8> = Vec::new();
        push_slice(&mut out, self.input.as_bytes(), *span);
        out
    }

    /// The outline of `node`.
    pub fn pretty(self, node: &AstNode) -> (result: Vec<u8>)
        ensures
            result@ == self.buffer@ + outline_of(self.source(), *node, self.indent),
    {
        let mut out = self.buffer;
        write_outline(&mut out, self.input.as_bytes(), node, self.indent);
        out
    }
}

fn step(indent: usize) -> (result: usize)
    ensures
        result == deeper(indent),
{
    if indent < usize::MAX {
        indent + 1
    } else {
        indent
    }
}

fn write_plain(out: &mut Vec<u8>, indent: usize, text: &str)
    ensures
        final(out)@ == old(out)@ + outline(indent, text@),
{
    out.push(10u8);
    push_repeated(out, 32u8, indent);
    push_repeated(out, 32u8, indent);
    push_str(out, text);
    assert(out@ =~= old(out)@ + outline(indent, text@));
}

fn write_heading(out: &mut Vec<u8>, indent: usize, first: &str, second: &str)
    ensures
        final(out)@ == old(out)@ + outline(indent, first@ + second@),
{
    out.push(10u8);
    push_repeated(out, 32u8, indent);
    push_repeated(out, 32u8, indent);
    let mut text = String::from_str(first);
    text.append(second);
    push_str(out, text.as_str());
    assert(out@ =~= old(out)@ + outline(indent, first@ + second@));
}

fn write_labelled(out: &mut Vec<u8>, source: &[u8], label: &str, child: &AstNode, indent: usize)
    ensures
        final(out)@ == old(out)@ + labelled(source@, label@, *child, indent),
    decreases *child, 1nat,
{
    write_plain(out, indent, label);
    write_outline(out, source, child, step(indent));
    assert(out@ =~= old(out)@ + labelled(source@, label@, *child, indent));
}

fn write_optional(
    out: &mut Vec<u8>,
    source: &[u8],
    label: &str,
    child: &Option<Box<AstNode>>,
    indent: usize,
)
    ensures
        final(out)@ == old(out)@ + optional(source@, label@, *child, indent),
    decreases *child, 2nat,
{
    match child {
        Some(node) => {
            write_labelled(out, source, label, node, indent);
        },
        None => {
            assert(out@ =~= old(out)@ + optional(source@, label@, *child, indent));
        },
    }
}

/// Appends the outline of `node` to `out`.
pub fn write_outline(out: &mut Vec<u8>, source: &[u8], node: &AstNode, indent: usize)
    ensures
        final(out)@ == old(out)@ + outline_of(source@, *node, indent),
    decreases *node, 0nat,
{
    let inner = step(indent);
    match node {
        AstNode::Bool(_, value) => {
            if *value {
                push_str(out, "true");
            } else {
                push_str(out, "false");
            }
        },
        AstNode::String(span) => {
            push_slice(out, source, *span);
        },
        AstNode::Integer(span) => {
            push_slice(out, source, *span);
        },
        AstNode::Float(span) => {
            push_slice(out, source, *span);
        },
        AstNode::Identifier(span) => {
            push_slice(out, source, *span);
        },
        AstNode::Error(_) => {
            push_str(out, "<error>");
        },
        AstNode::Path { left, access, right, .. } => {
            write_plain(out, indent, "Path");
            write_labelled(out, source, "Left: ", left, inner);
            write_plain(out, inner, access.name());
            write_labelled(out, source, "Right: ", right, inner);
            assert(out@ =~= old(out)@ + outline_of(source@, *node, indent));
        },
        AstNode::Unary { operator, operand, .. } => {
            write_plain(out, indent, "Unary");
            write_heading(out, inner, "Operator: ", operator.operator.name());
            write_labelled(out, source, "Operand: ", operand, inner);
            assert(out@ =~= old(out)@ + outline_of(source@, *node, indent));
        },
        AstNode::Binary { operator, left, right, .. } => {
            write_plain(out, indent, "BinaryExpression");
            write_labelled(out, source, "Left: ", left, inner);
            write_heading(out, inner, "Operator: ", operator.operator.name());
            write_labelled(out, source, "Right: ", right, inner);
            assert(out@ =~= old(out)@ + outline_of(source@, *node, indent));
        },
        AstNode::Call { subject, arguments, .. } => {
            write_plain(out, indent, "Call");
            write_labelled(out, source, "Subject: ", subject, inner);
            write_optional(out, source, "Arguments: ", arguments, inner);
            assert(out@ =~= old(out)@ + outline_of(source@, *node, indent));
        },
        AstNode::Pair { left, right, .. } => {
            write_plain(out, indent, "Pair");
            write_labelled(out, source, "Left: ", left, inner);
            write_labelled(out, source, "Right: ", right, inner);
            assert(out@ =~= old(out)@ + outline_of(source@, *node, indent));
        },
        AstNode::Sequence { left, right, .. } => {
            write_plain(out, indent, "Sequence");
            write_labelled(out, source, "First: ", left, inner);
            write_optional(out, source, "Rest: ", right, inner);
            assert(out@ =~= old(out)@ + outline_of(source@, *node, indent));
        },
        AstNode::Assignment { ty, pattern, value, .. } => {
            write_plain(out, indent, "Assignment");
            write_heading(out, inner, "Kind: ", ty.name());
            write_labelled(out, source, "Pattern: ", pattern, inner);
            write_labelled(out, source, "Value: ", value, inner);
            assert(out@ =~= old(out)@ + outline_of(source@, *node, indent));
        },
        AstNode::Module { name, .. } => {
            write_plain(out, indent, "Module ");
            push_slice(out, source, *name);
            assert(out@ =~= old(out)@ + outline_of(source@, *node, indent));
        },
        AstNode::Struct { name, fields, .. } => {
            write_plain(out, indent, "Struct ");
            push_slice(out, source, *name);
            write_labelled(out, source, "Fields: ", fields, inner);
            assert(out@ =~= old(out)@ + outline_of(source@, *node, indent));
        },
        AstNode::Function { name, parameters, return_type, body, .. } => {
            write_plain(out, indent, "Function ");
            push_slice(out, source, *name);
            write_optional(out, source, "Parameters: ", parameters, inner);
            write_optional(out, source, "Returns: ", return_type, inner);
            write_optional(out, source, "Body: ", body, inner);
            assert(out@ =~= old(out)@ + outline_of(source@, *node, indent));
        },
        AstNode::Block { items, .. } => {
            write_plain(out, indent, "Block");
            write_optional(out, source, "Items: ", items, inner);
            assert(out@ =~= old(out)@ + outline_of(source@, *node, indent));
        },
        AstNode::ItemMetadata { inner: about, subject, .. } => {
            write_plain(out, indent, "ItemMetadata");
            write_labelled(out, source, "Inner: ", about, inner);
            write_labelled(out, source, "Subject: ", subject, inner);
            assert(out@ =~= old(out)@ + outline_of(source@, *node, indent));
        },
        AstNode::ModuleMetadata { inner: about, .. } => {
            write_plain(out, indent, "ModuleMetadata");
            write_labelled(out, source, "Inner: ", about, inner);
            assert(out@ =~= old(out)@ + outline_of(source@, *node, indent));
        },
    }
}

} // verus!
