//! What holds of the generator on all trees.

use crate::parser::ast::AstView;
use crate::transpiler::rendering::{render, render_block, render_list};
use vstd::prelude::*;

verus! {

/// Whether a tree is, or holds somewhere below it, a function without a name.
pub open spec fn holds_lambda(node: AstView) -> bool
    decreases node, 0nat,
{
    match node {
        AstView::UnaryOperation { operand, .. } => holds_lambda(*operand),
        AstView::BinaryOperation { left, right, .. } => holds_lambda(*left) || holds_lambda(*right),
        AstView::FunctionCall { args, .. } => any_holds_lambda(args, args.len()),
        AstView::MemberAccess { parent, child } => holds_lambda(*parent) || holds_lambda(*child),
        AstView::LambdaFunction { .. } => true,
        AstView::FunctionDefinition { params, body, .. } => any_holds_lambda(params, params.len())
            || any_holds_lambda(body, body.len()),
        AstView::IfStatement { condition, body } => holds_lambda(*condition) || any_holds_lambda(
            body,
            body.len(),
        ),
        AstView::WhileLoop { condition, body } => holds_lambda(*condition) || any_holds_lambda(
            body,
            body.len(),
        ),
        AstView::ReturnStatement { value } => holds_lambda(*value),
        _ => false,
    }
}

/// Whether one of the first `n` trees of a list holds a function without a
/// name.
pub open spec fn any_holds_lambda(nodes: Seq<AstView>, n: nat) -> bool
    decreases nodes, n,
{
    if n == 0 || n > nodes.len() {
        false
    } else {
        any_holds_lambda(nodes, (n - 1) as nat) || holds_lambda(nodes[n - 1])
    }
}

/// A tree has a text at every level of indentation unless it holds a function
/// without a name, and then it has none at any level.
pub proof fn law_fails_only_on_lambda(node: AstView, level: nat)
    ensures
        render(node, level) is Err <==> holds_lambda(node),
    decreases node, 0nat,
{
    match node {
        AstView::UnaryOperation { operand, .. } => {
            law_fails_only_on_lambda(*operand, level);
        },
        AstView::BinaryOperation { left, right, .. } => {
            law_fails_only_on_lambda(*left, level);
            law_fails_only_on_lambda(*right, level);
        },
        AstView::FunctionCall { args, .. } => {
            law_list_fails_only_on_lambda(args, args.len(), level);
        },
        AstView::MemberAccess { parent, child } => {
            law_fails_only_on_lambda(*parent, level);
            law_fails_only_on_lambda(*child, level);
        },
        AstView::FunctionDefinition { params, body, .. } => {
            law_list_fails_only_on_lambda(params, params.len(), level);
            law_block_fails_only_on_lambda(body, body.len(), level + 1);
        },
        AstView::IfStatement { condition, body } => {
            law_fails_only_on_lambda(*condition, level);
            law_block_fails_only_on_lambda(body, body.len(), level + 1);
        },
        AstView::WhileLoop { condition, body } => {
            law_fails_only_on_lambda(*condition, level);
            law_block_fails_only_on_lambda(body, body.len(), level + 1);
        },
        AstView::ReturnStatement { value } => {
            law_fails_only_on_lambda(*value, level);
        },
        _ => {},
    }
}

/// A list of trees has a text unless one of them holds a function without a
/// name.
pub proof fn law_list_fails_only_on_lambda(nodes: Seq<AstView>, n: nat, level: nat)
    ensures
        render_list(nodes, n, level) is Err <==> any_holds_lambda(nodes, n),
    decreases nodes, n,
{
    if !(n == 0 || n > nodes.len()) {
        law_list_fails_only_on_lambda(nodes, (n - 1) as nat, level);
        law_fails_only_on_lambda(nodes[n - 1], level);
    }
}

/// A block has a text unless one of its statements holds a function without
/// a name.
pub proof fn law_block_fails_only_on_lambda(nodes: Seq<AstView>, n: nat, level: nat)
    ensures
        render_block(nodes, n, level) is Err <==> any_holds_lambda(nodes, n),
    decreases nodes, n,
{
    if !(n == 0 || n > nodes.len()) {
        law_block_fails_only_on_lambda(nodes, (n - 1) as nat, level);
        law_fails_only_on_lambda(nodes[n - 1], level);
    }
}

} // verus!
