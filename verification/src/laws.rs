use crate::ast::{atom_of, binary_of, AstNode, OperatorInfo, PathAccess};
use crate::error::{Diagnostic, Error, ErrorKind};
use crate::parser::{
    deletion, expect, expression, first_match, grown, infix, infix_chain, prefix,
    unclosed_errors, State,
};
use crate::pattern::Pattern;
use crate::span::SpannedToken;
use crate::token::{Category, Token};
use crate::token_info::{binding_power, infix_precedence, POSTFIX, START};
use vstd::prelude::*;

verus! {

/// Whether no operator stands at `position` that binds tighter than `min`:
/// the tokens end there, or the token there binds no tighter.
pub open spec fn chain_ends(tokens: Seq<SpannedToken>, position: nat, min: u32) -> bool {
    position >= tokens.len() || infix_precedence(tokens[position as int].1).0 <= min
}

/// The node of `left`, the binary operator `token` and `right`.
pub open spec fn binary(left: AstNode, token: SpannedToken, right: AstNode) -> AstNode {
    AstNode::Binary {
        span: left.spec_span().spec_union(right.spec_span()),
        operator: OperatorInfo { operator: binary_of(token.1).unwrap(), span: token.0 },
        left: Box::new(left),
        right: Box::new(right),
    }
}

/// A literal or an identifier behind which no operator binds tighter than
/// `min` is read as a leaf, and nothing else is read.
pub proof fn lemma_leaf(tokens: Seq<SpannedToken>, st: State, min: u32)
    requires
        st.position < tokens.len(),
        atom_of(tokens[st.position as int]) is Some,
        chain_ends(tokens, st.position + 1, min),
    ensures
        expression(tokens, st, min) == (
            atom_of(tokens[st.position as int]).unwrap(),
            st.at(st.position + 1),
        ),
{
    let token = tokens[st.position as int];
    let behind = st.at(st.position + 1);
    assert(token.1.in_category(Category::FirstTokenOfExpression));
    assert(expect(tokens, st, Pattern::AnyOf(Category::FirstTokenOfExpression)) == (
        Ok::<SpannedToken, Error>(token),
        behind,
    ));
    assert(prefix(tokens, behind, token) == (atom_of(token).unwrap(), behind));
    assert(infix_chain(tokens, behind, atom_of(token).unwrap(), min) == (
        atom_of(token).unwrap(),
        behind,
    ));
}

/// A leaf, a binary operator that binds tighter than `min`, and a right
/// operand that is read up to `end`, behind which no operator binds
/// tighter than `min`, are read as one binary node.
pub proof fn lemma_one_operator(
    tokens: Seq<SpannedToken>,
    st: State,
    min: u32,
    right: AstNode,
    end: nat,
)
    requires
        st.position + 1 < tokens.len(),
        atom_of(tokens[st.position as int]) is Some,
        binary_of(tokens[(st.position + 1) as int].1) is Some,
        min < infix_precedence(tokens[(st.position + 1) as int].1).0,
        expression(tokens, st.at(st.position + 2), binding_power(tokens[(st.position + 1) as int].1).0)
            == (right, st.at(end)),
        st.position + 2 <= end <= tokens.len(),
        chain_ends(tokens, end, min),
    ensures
        expression(tokens, st, min) == (
            binary(atom_of(tokens[st.position as int]).unwrap(), tokens[(st.position + 1) as int], right),
            st.at(end),
        ),
{
    let token = tokens[st.position as int];
    let operator = tokens[(st.position + 1) as int];
    let left = atom_of(token).unwrap();
    let behind = st.at(st.position + 1);
    assert(token.1.in_category(Category::FirstTokenOfExpression));
    assert(expect(tokens, st, Pattern::AnyOf(Category::FirstTokenOfExpression)) == (
        Ok::<SpannedToken, Error>(token),
        behind,
    ));
    assert(prefix(tokens, behind, token) == (left, behind));
    assert(behind.at(behind.position + 1) == st.at(st.position + 2));
    assert(infix(tokens, st.at(st.position + 2), left, operator) == (
        binary(left, operator, right),
        st.at(end),
    ));
    assert(infix_chain(tokens, st.at(end), binary(left, operator, right), min) == (
        binary(left, operator, right),
        st.at(end),
    ));
    assert(infix_chain(tokens, behind, left, min) == (binary(left, operator, right), st.at(end)));
}

/// The structure of what is read follows the precedence of the operators.
/// Of two binary operators between three leaves, the second takes the
/// middle leaf where it binds tighter than the first; where it binds as
/// tight or looser, the first takes it, so that operators of one precedence
/// group from the left.
pub proof fn lemma_precedence_decides_grouping(tokens: Seq<SpannedToken>, st: State)
    requires
        st.position + 5 <= tokens.len(),
        atom_of(tokens[st.position as int]) is Some,
        binary_of(tokens[(st.position + 1) as int].1) is Some,
        atom_of(tokens[(st.position + 2) as int]) is Some,
        binary_of(tokens[(st.position + 3) as int].1) is Some,
        atom_of(tokens[(st.position + 4) as int]) is Some,
        chain_ends(tokens, st.position + 5, START),
    ensures
        ({
            let a = atom_of(tokens[st.position as int]).unwrap();
            let b = atom_of(tokens[(st.position + 2) as int]).unwrap();
            let c = atom_of(tokens[(st.position + 4) as int]).unwrap();
            let first = tokens[(st.position + 1) as int];
            let second = tokens[(st.position + 3) as int];
            expression(tokens, st, START) == (
                if infix_precedence(second.1).0 > infix_precedence(first.1).0 {
                    binary(a, first, binary(b, second, c))
                } else {
                    binary(binary(a, first, b), second, c)
                },
                st.at(st.position + 5),
            )
        }),
{
    let p = st.position;
    let a = atom_of(tokens[p as int]).unwrap();
    let b = atom_of(tokens[(p + 2) as int]).unwrap();
    let c = atom_of(tokens[(p + 4) as int]).unwrap();
    let first = tokens[(p + 1) as int];
    let second = tokens[(p + 3) as int];
    let one = infix_precedence(first.1).0;
    let two = infix_precedence(second.1).0;
    assert(binding_power(first.1).0 == one);
    assert(binding_power(second.1).0 == two);
    assert(one > START && two > START);
    if two > one {
        lemma_leaf(tokens, st.at(p + 4), two);
        assert(st.at(p + 2).at(p + 4) == st.at(p + 4));
        assert(st.at(p + 4).at(p + 5) == st.at(p + 5));
        lemma_one_operator(tokens, st.at(p + 2), one, c, p + 5);
        assert(st.at(p + 2).at(p + 5) == st.at(p + 5));
        lemma_one_operator(tokens, st, START, binary(b, second, c), p + 5);
    } else {
        lemma_leaf(tokens, st.at(p + 2), one);
        assert(st.at(p + 2).at(p + 3) == st.at(p + 3));
        lemma_leaf(tokens, st.at(p + 4), two);
        assert(st.at(p + 4).at(p + 5) == st.at(p + 5));
        let token = tokens[p as int];
        let behind = st.at(p + 1);
        assert(token.1.in_category(Category::FirstTokenOfExpression));
        assert(expect(tokens, st, Pattern::AnyOf(Category::FirstTokenOfExpression)) == (
            Ok::<SpannedToken, Error>(token),
            behind,
        ));
        assert(prefix(tokens, behind, token) == (a, behind));
        assert(behind.at(behind.position + 1) == st.at(p + 2));
        assert(infix(tokens, st.at(p + 2), a, first) == (binary(a, first, b), st.at(p + 3)));
        assert(st.at(p + 3).at(p + 4) == st.at(p + 4));
        assert(infix(tokens, st.at(p + 4), binary(a, first, b), second) == (
            binary(binary(a, first, b), second, c),
            st.at(p + 5),
        ));
        let whole = binary(binary(a, first, b), second, c);
        assert(infix_chain(tokens, st.at(p + 5), whole, START) == (whole, st.at(p + 5)));
        assert(infix_chain(tokens, st.at(p + 3), binary(a, first, b), START) == (
            whole,
            st.at(p + 5),
        ));
        assert(infix_chain(tokens, behind, a, START) == (whole, st.at(p + 5)));
    }
}

/// The node of `left`, the path token `token` and `right`.
pub open spec fn path(left: AstNode, token: SpannedToken, right: AstNode) -> AstNode {
    AstNode::Path {
        span: left.spec_span().spec_union(right.spec_span()),
        left: Box::new(left),
        access: if token.1 == Token::Dot {
            PathAccess::Member
        } else {
            PathAccess::Scope
        },
        right: Box::new(right),
    }
}

/// A leaf, a path token, and a right operand that is read up to `end`,
/// behind which no operator binds tighter than `min`, are read as one
/// path.
pub proof fn lemma_one_path(
    tokens: Seq<SpannedToken>,
    st: State,
    min: u32,
    right: AstNode,
    end: nat,
)
    requires
        st.position + 1 < tokens.len(),
        atom_of(tokens[st.position as int]) is Some,
        tokens[(st.position + 1) as int].1.in_category(Category::Path),
        min < POSTFIX,
        expression(tokens, st.at(st.position + 2), (POSTFIX - 1) as u32) == (right, st.at(end)),
        st.position + 2 <= end <= tokens.len(),
        chain_ends(tokens, end, min),
    ensures
        expression(tokens, st, min) == (
            path(
                atom_of(tokens[st.position as int]).unwrap(),
                tokens[(st.position + 1) as int],
                right,
            ),
            st.at(end),
        ),
{
    let token = tokens[st.position as int];
    let operator = tokens[(st.position + 1) as int];
    let left = atom_of(token).unwrap();
    let behind = st.at(st.position + 1);
    let whole = path(left, operator, right);
    assert(token.1.in_category(Category::FirstTokenOfExpression));
    assert(expect(tokens, st, Pattern::AnyOf(Category::FirstTokenOfExpression)) == (
        Ok::<SpannedToken, Error>(token),
        behind,
    ));
    assert(prefix(tokens, behind, token) == (left, behind));
    assert(behind.at(behind.position + 1) == st.at(st.position + 2));
    assert(infix_precedence(operator.1).0 == POSTFIX);
    assert(infix(tokens, st.at(st.position + 2), left, operator) == (whole, st.at(end)));
    assert(infix_chain(tokens, st.at(end), whole, min) == (whole, st.at(end)));
    assert(infix_chain(tokens, behind, left, min) == (whole, st.at(end)));
}

/// Operators that group to the right chain to the right: of two path
/// tokens between three leaves, the first takes the path of the other two
/// as its right operand.
pub proof fn lemma_paths_group_from_the_right(tokens: Seq<SpannedToken>, st: State)
    requires
        st.position + 5 <= tokens.len(),
        atom_of(tokens[st.position as int]) is Some,
        tokens[(st.position + 1) as int].1.in_category(Category::Path),
        atom_of(tokens[(st.position + 2) as int]) is Some,
        tokens[(st.position + 3) as int].1.in_category(Category::Path),
        atom_of(tokens[(st.position + 4) as int]) is Some,
        chain_ends(tokens, st.position + 5, START),
    ensures
        expression(tokens, st, START) == (
            path(
                atom_of(tokens[st.position as int]).unwrap(),
                tokens[(st.position + 1) as int],
                path(
                    atom_of(tokens[(st.position + 2) as int]).unwrap(),
                    tokens[(st.position + 3) as int],
                    atom_of(tokens[(st.position + 4) as int]).unwrap(),
                ),
            ),
            st.at(st.position + 5),
        ),
{
    let p = st.position;
    let b = atom_of(tokens[(p + 2) as int]).unwrap();
    let c = atom_of(tokens[(p + 4) as int]).unwrap();
    let second = tokens[(p + 3) as int];
    lemma_leaf(tokens, st.at(p + 4), (POSTFIX - 1) as u32);
    assert(st.at(p + 2).at(p + 4) == st.at(p + 4));
    assert(st.at(p + 4).at(p + 5) == st.at(p + 5));
    lemma_one_path(tokens, st.at(p + 2), (POSTFIX - 1) as u32, c, p + 5);
    assert(st.at(p + 2).at(p + 5) == st.at(p + 5));
    lemma_one_path(tokens, st, START, path(b, second, c), p + 5);
}

/// Recovery by deletion reads at least one token whenever it finds the
/// expected one, and never goes back or beyond the tokens.
pub proof fn lemma_deletion_progress(
    tokens: Seq<SpannedToken>,
    st: State,
    pattern: Pattern,
    first: SpannedToken,
)
    requires
        st.position <= tokens.len(),
    ensures
        st.position <= deletion(tokens, st, pattern, first).1.position <= tokens.len(),
        deletion(tokens, st, pattern, first).0 is Ok ==> deletion(
            tokens,
            st,
            pattern,
            first,
        ).1.position > st.position,
        deletion(tokens, st, pattern, first).0 is Err ==> deletion(tokens, st, pattern, first).1
            == st,
{
    lemma_first_match_bounds(
        tokens,
        pattern,
        st.position,
        crate::parser::recovery_end(tokens, st.position),
    );
}

/// Where `first_match` finds a place, it lies in the range that was
/// searched, `pattern` accepts the token there, and none before it.
pub proof fn lemma_first_match_bounds(
    tokens: Seq<SpannedToken>,
    pattern: Pattern,
    from: nat,
    to: nat,
)
    ensures
        match first_match(tokens, pattern, from, to) {
            Some(place) => from <= place < to && place < tokens.len() && pattern.accepts(
                tokens[place as int].1,
            ) && forall|k: int| from <= k < place ==> !pattern.accepts(#[trigger] tokens[k].1),
            None => forall|k: int|
                from <= k < to && k < tokens.len() ==> !pattern.accepts(#[trigger] tokens[k].1),
        },
    decreases to - from,
{
    if from < to && from < tokens.len() && !pattern.accepts(tokens[from as int].1) {
        lemma_first_match_bounds(tokens, pattern, from + 1, to);
    }
}

/// Expecting a token always makes progress: whenever a token is left, at
/// least one is read, whether the expected token stands there, is found
/// behind others, or is not found.
pub proof fn lemma_expect_progress(tokens: Seq<SpannedToken>, st: State, pattern: Pattern)
    requires
        st.position <= tokens.len(),
    ensures
        st.position <= expect(tokens, st, pattern).1.position <= tokens.len(),
        st.position < tokens.len() ==> expect(tokens, st, pattern).1.position > st.position,
        expect(tokens, st, pattern).0 is Ok ==> expect(tokens, st, pattern).1.position
            > st.position,
{
    if st.position < tokens.len() {
        lemma_deletion_progress(
            tokens,
            st.at(st.position + 1),
            pattern,
            tokens[st.position as int],
        );
    }
}

/// When all is read, the diagnostics for open brackets are those behind
/// the diagnostics that reading made: there are as many as brackets stayed
/// open, and each stands at the place of its bracket. So exactly one open
/// bracket gives exactly one such diagnostic, at that bracket.
pub proof fn lemma_open_brackets_are_counted(made: Seq<Error>, open: Seq<SpannedToken>, index: int)
    requires
        grown(Seq::empty(), made),
        0 <= index < made.len() + open.len(),
    ensures
        (made + unclosed_errors(open)).len() == made.len() + open.len(),
        (made + unclosed_errors(open))[index].kind == ErrorKind::Diagnostic(
            Diagnostic::UnclosedDelimiter,
        ) <==> index >= made.len(),
        index >= made.len() ==> (made + unclosed_errors(open))[index].location == open[index
            - made.len()].0,
{
}

/// There is one diagnostic for each bracket that stays open, at the place
/// of that bracket: for exactly one open bracket, exactly one.
pub proof fn lemma_one_diagnostic_for_each_open_bracket(open: Seq<SpannedToken>, index: int)
    requires
        0 <= index < open.len(),
    ensures
        unclosed_errors(open).len() == open.len(),
        unclosed_errors(open)[index] == crate::error::unclosed(open[index].0),
        unclosed_errors(open)[index].location == open[index].0,
{
}

} // verus!
