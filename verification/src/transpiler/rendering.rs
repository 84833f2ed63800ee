//! What the generator writes for a tree, as a function from the tree and the
//! level of indentation to text.

use crate::parser::ast::{AstView, BinaryOperator, UnaryOperator};
use crate::text::decimal_text;
use crate::transpiler::GenerationError;
use vstd::prelude::*;

verus! {

/// Text, or the reason why there is none.
pub type Rendering = Result<Seq<char>, GenerationError>;

/// The spelling of an operator with one operand. The logical not is a word,
/// and a space follows it.
pub open spec fn unary_operator_text(operator: UnaryOperator) -> Seq<char> {
    match operator {
        UnaryOperator::Minus => "-"@,
        UnaryOperator::LogicalNot => "not "@,
    }
}

/// The spelling of an operator with two operands. Conjunction and disjunction
/// are words; every other operator is its symbol.
pub open spec fn binary_operator_text(operator: BinaryOperator) -> Seq<char> {
    match operator {
        BinaryOperator::Plus => "+"@,
        BinaryOperator::Minus => "-"@,
        BinaryOperator::Asterisk => "*"@,
        BinaryOperator::Slash => "/"@,
        BinaryOperator::PlusEqual => "+="@,
        BinaryOperator::MinusEqual => "-="@,
        BinaryOperator::AsteriskEqual => "*="@,
        BinaryOperator::Exponent => "**"@,
        BinaryOperator::SlashEqual => "/="@,
        BinaryOperator::Modulus => "%"@,
        BinaryOperator::ModulusEqual => "%="@,
        BinaryOperator::Equal => "="@,
        BinaryOperator::EqualEqual => "=="@,
        BinaryOperator::BangEqual => "!="@,
        BinaryOperator::Less => "<"@,
        BinaryOperator::Greater => ">"@,
        BinaryOperator::LessEqual => "<="@,
        BinaryOperator::GreaterEqual => ">="@,
        BinaryOperator::Or => "or"@,
        BinaryOperator::And => "and"@,
    }
}

/// The indentation of a line at the given level: one tab for each level.
pub open spec fn indentation(level: nat) -> Seq<char> {
    Seq::new(level, |i: int| '\t')
}

/// The larger of two numbers.
pub open spec fn larger(a: nat, b: nat) -> nat {
    if a >= b {
        a
    } else {
        b
    }
}

/// How many levels of indentation the rendering of a tree adds to the level
/// at which it starts: one for every block, and the blocks of a block's body
/// on top of it.
pub open spec fn depth(node: AstView) -> nat
    decreases node, 0nat,
{
    match node {
        AstView::UnaryOperation { operand, .. } => depth(*operand),
        AstView::BinaryOperation { left, right, .. } => larger(depth(*left), depth(*right)),
        AstView::FunctionCall { args, .. } => depth_of_first(args, args.len()),
        AstView::MemberAccess { parent, child } => larger(depth(*parent), depth(*child)),
        AstView::FunctionDefinition { params, body, .. } => larger(
            depth_of_first(params, params.len()),
            1 + depth_of_first(body, body.len()),
        ),
        AstView::IfStatement { condition, body } => larger(
            depth(*condition),
            1 + depth_of_first(body, body.len()),
        ),
        AstView::WhileLoop { condition, body } => larger(
            depth(*condition),
            1 + depth_of_first(body, body.len()),
        ),
        AstView::ReturnStatement { value } => depth(*value),
        _ => 0,
    }
}

/// The largest depth among the first `n` trees of a list.
pub open spec fn depth_of_first(nodes: Seq<AstView>, n: nat) -> nat
    decreases nodes, n,
{
    if n == 0 || n > nodes.len() {
        0
    } else {
        larger(depth_of_first(nodes, (n - 1) as nat), depth(nodes[n - 1]))
    }
}

/// The text of a tree at the given level of indentation. A function without a
/// name has no text: a tree that holds one cannot be rendered.
pub open spec fn render(node: AstView, level: nat) -> Rendering
    decreases node, 0nat,
{
    match node {
        AstView::UnaryOperation { operator, operand } => match render(*operand, level) {
            Err(e) => Err(e),
            Ok(operand) => Ok(unary_operator_text(operator) + operand),
        },
        AstView::BinaryOperation { operator, left, right } => match render(*left, level) {
            Err(e) => Err(e),
            Ok(left) => match render(*right, level) {
                Err(e) => Err(e),
                Ok(right) => Ok(left + " "@ + binary_operator_text(operator) + " "@ + right),
            },
        },
        AstView::FunctionCall { function, args } => match render_list(args, args.len(), level) {
            Err(e) => Err(e),
            Ok(args) => Ok(function + "("@ + args + ")"@),
        },
        AstView::IntegerLiteral(v) => Ok(decimal_text(v as int)),
        AstView::FloatLiteral(text) => Ok(text),
        AstView::BooleanLiteral(b) => Ok(
            if b {
                "True"@
            } else {
                "False"@
            },
        ),
        AstView::StringLiteral(text) => Ok("\""@ + text + "\""@),
        AstView::Identifier(name) => Ok(name),
        AstView::MemberAccess { parent, child } => match render(*parent, level) {
            Err(e) => Err(e),
            Ok(parent) => match render(*child, level) {
                Err(e) => Err(e),
                Ok(child) => Ok(parent + "."@ + child),
            },
        },
        AstView::LambdaFunction { .. } => Err(GenerationError::UnimplementedLambda),
        AstView::FunctionDefinition { name, params, body, .. } => match render_list(
            params,
            params.len(),
            level,
        ) {
            Err(e) => Err(e),
            Ok(params) => match render_block(body, body.len(), level + 1) {
                Err(e) => Err(e),
                Ok(body) => Ok("def "@ + name + "("@ + params + "):\n"@ + body),
            },
        },
        AstView::IfStatement { condition, body } => match render(*condition, level) {
            Err(e) => Err(e),
            Ok(condition) => match render_block(body, body.len(), level + 1) {
                Err(e) => Err(e),
                Ok(body) => Ok("if "@ + condition + ":\n"@ + body),
            },
        },
        AstView::ReturnStatement { value } => match render(*value, level) {
            Err(e) => Err(e),
            Ok(value) => Ok("return "@ + value),
        },
        AstView::UseStatement { namespace } => Ok("import "@ + namespace),
        AstView::WhileLoop { condition, body } => match render(*condition, level) {
            Err(e) => Err(e),
            Ok(condition) => match render_block(body, body.len(), level + 1) {
                Err(e) => Err(e),
                Ok(body) => Ok("while "@ + condition + ":\n"@ + body),
            },
        },
    }
}

/// The texts of the first `n` trees of a list, with a comma and a space
/// between one and the next.
pub open spec fn render_list(nodes: Seq<AstView>, n: nat, level: nat) -> Rendering
    decreases nodes, n,
{
    if n == 0 || n > nodes.len() {
        Ok(Seq::empty())
    } else {
        match render_list(nodes, (n - 1) as nat, level) {
            Err(e) => Err(e),
            Ok(before) => match render(nodes[n - 1], level) {
                Err(e) => Err(e),
                Ok(last) => Ok(
                    if n == 1 {
                        last
                    } else {
                        before + ", "@ + last
                    },
                ),
            },
        }
    }
}

/// The first `n` statements of a block as lines: each is the indentation of
/// the level, the text of the statement and a line break.
pub open spec fn render_block(nodes: Seq<AstView>, n: nat, level: nat) -> Rendering
    decreases nodes, n,
{
    if n == 0 || n > nodes.len() {
        Ok(Seq::empty())
    } else {
        match render_block(nodes, (n - 1) as nat, level) {
            Err(e) => Err(e),
            Ok(before) => match render(nodes[n - 1], level) {
                Err(e) => Err(e),
                Ok(last) => Ok(before + indentation(level) + last + "\n"@),
            },
        }
    }
}

} // verus!
