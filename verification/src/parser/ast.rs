//! The syntax tree.
//!
//! An [`AstNode`] owns its children. Its view, an [`AstView`], is the same
//! tree over sequences of characters and sequences of trees.

use crate::lexer::{PieToken, TokenType};
use vstd::prelude::*;

verus! {

/// An operator that takes one operand.
#[derive(Clone, Copy, Debug, PartialEq, Eq, Structural)]
pub enum UnaryOperator {
    Minus,
    LogicalNot,
}

/// An operator that takes two operands.
#[derive(Clone, Copy, Debug, PartialEq, Eq, Structural)]
pub enum BinaryOperator {
    Plus,
    Minus,
    Asterisk,
    Slash,
    PlusEqual,
    MinusEqual,
    AsteriskEqual,
    Exponent,
    SlashEqual,
    Modulus,
    ModulusEqual,
    Equal,
    EqualEqual,
    BangEqual,
    Less,
    Greater,
    LessEqual,
    GreaterEqual,
    Or,
    And,
}

impl BinaryOperator {
    /// The operator that a kind of token denotes, if it denotes one.
    pub open spec fn of_kind(kind: TokenType) -> Option<BinaryOperator> {
        match kind {
            TokenType::Plus => Some(BinaryOperator::Plus),
            TokenType::PlusEqual => Some(BinaryOperator::PlusEqual),
            TokenType::Minus => Some(BinaryOperator::Minus),
            TokenType::MinusEqual => Some(BinaryOperator::MinusEqual),
            TokenType::Asterisk => Some(BinaryOperator::Asterisk),
            TokenType::AsteriskAsterisk => Some(BinaryOperator::Exponent),
            TokenType::AsteriskEqual => Some(BinaryOperator::AsteriskEqual),
            TokenType::Slash => Some(BinaryOperator::Slash),
            TokenType::SlashEqual => Some(BinaryOperator::SlashEqual),
            TokenType::Modulus => Some(BinaryOperator::Modulus),
            TokenType::ModulusEqual => Some(BinaryOperator::ModulusEqual),
            TokenType::Equal => Some(BinaryOperator::Equal),
            TokenType::EqualEqual => Some(BinaryOperator::EqualEqual),
            TokenType::BangEqual => Some(BinaryOperator::BangEqual),
            TokenType::And => Some(BinaryOperator::And),
            TokenType::Or => Some(BinaryOperator::Or),
            TokenType::Less => Some(BinaryOperator::Less),
            TokenType::LessEqual => Some(BinaryOperator::LessEqual),
            TokenType::Greater => Some(BinaryOperator::Greater),
            TokenType::GreaterEqual => Some(BinaryOperator::GreaterEqual),
            _ => None,
        }
    }

    /// The kinds of token that denote an operator with two operands are those
    /// whose precedence is 1 or more.
    pub proof fn lemma_operator_kinds(kind: TokenType)
        ensures
            Self::of_kind(kind) is Some <==> kind.precedence() >= 1,
    {
    }

    /// The operator that a token denotes, if it denotes one.
    pub fn from(token: &PieToken) -> (r: Option<Self>)
        ensures
            r == Self::of_kind(token.type_),
    {
        match token.type_ {
            TokenType::Plus => Some(BinaryOperator::Plus),
            TokenType::PlusEqual => Some(BinaryOperator::PlusEqual),
            TokenType::Minus => Some(BinaryOperator::Minus),
            TokenType::MinusEqual => Some(BinaryOperator::MinusEqual),
            TokenType::Asterisk => Some(BinaryOperator::Asterisk),
            TokenType::AsteriskAsterisk => Some(BinaryOperator::Exponent),
            TokenType::AsteriskEqual => Some(BinaryOperator::AsteriskEqual),
            TokenType::Slash => Some(BinaryOperator::Slash),
            TokenType::SlashEqual => Some(BinaryOperator::SlashEqual),
            TokenType::Modulus => Some(BinaryOperator::Modulus),
            TokenType::ModulusEqual => Some(BinaryOperator::ModulusEqual),
            TokenType::Equal => Some(BinaryOperator::Equal),
            TokenType::EqualEqual => Some(BinaryOperator::EqualEqual),
            TokenType::BangEqual => Some(BinaryOperator::BangEqual),
            TokenType::And => Some(BinaryOperator::And),
            TokenType::Or => Some(BinaryOperator::Or),
            TokenType::Less => Some(BinaryOperator::Less),
            TokenType::LessEqual => Some(BinaryOperator::LessEqual),
            TokenType::Greater => Some(BinaryOperator::Greater),
            TokenType::GreaterEqual => Some(BinaryOperator::GreaterEqual),
            _ => None,
        }
    }
}

/// A node of the syntax tree.
#[derive(Debug, PartialEq, Eq)]
pub enum AstNode {
    UnaryOperation(UnaryOperation),
    BinaryOperation(BinaryOperation),
    FunctionCall(FunctionCall),
    IntegerLiteral(i64),
    /// A float, as the decimal text that was written.
    FloatLiteral(String),
    BooleanLiteral(bool),
    StringLiteral(String),
    Identifier(String),
    MemberAccess(MemberAccess),
    LambdaFunction { params: Vec<AstNode>, body: Vec<AstNode> },
    FunctionDefinition(FunctionDefinition),
    IfStatement(IfStatement),
    ReturnStatement(ReturnStatement),
    UseStatement(UseStatement),
    WhileLoop(WhileLoop),
}

/// `parent.child`.
#[derive(Debug, PartialEq, Eq)]
pub struct MemberAccess {
    pub parent: Box<AstNode>,
    pub child: Box<AstNode>,
}

/// `use namespace`.
#[derive(Debug, PartialEq, Eq)]
pub struct UseStatement {
    pub namespace: String,
}

/// A loop that runs its body while its condition holds.
#[derive(Debug, PartialEq, Eq)]
pub struct WhileLoop {
    pub condition: Box<AstNode>,
    pub body: Vec<AstNode>,
}

/// An operator applied to one operand.
#[derive(Debug, PartialEq, Eq)]
pub struct UnaryOperation {
    pub operator: UnaryOperator,
    pub operand: Box<AstNode>,
}

/// An operator applied to a left and a right operand.
#[derive(Debug, PartialEq, Eq)]
pub struct BinaryOperation {
    pub operator: BinaryOperator,
    pub left_child: Box<AstNode>,
    pub right_child: Box<AstNode>,
}

/// A conditional with one branch.
#[derive(Debug, PartialEq, Eq)]
pub struct IfStatement {
    pub condition: Box<AstNode>,
    pub body: Vec<AstNode>,
}

/// The definition of a function: its name, the kind of the token that
/// declares its return type, its parameters and its body.
#[derive(Debug, PartialEq, Eq)]
pub struct FunctionDefinition {
    pub name: String,
    pub return_type: TokenType,
    pub param_list: Vec<AstNode>,
    pub body: Vec<AstNode>,
}

/// A call of a function by its name.
#[derive(Debug, PartialEq, Eq)]
pub struct FunctionCall {
    pub function: String,
    pub args: Vec<AstNode>,
}

/// A function without a name.
#[derive(Debug, PartialEq, Eq)]
pub struct LambdaFunction {
    pub params: Vec<AstNode>,
    pub body: Vec<AstNode>,
}

/// `return value`.
#[derive(Debug, PartialEq, Eq)]
pub struct ReturnStatement {
    pub body: Box<AstNode>,
}

/// What an [`AstNode`] stands for.
#[allow(inconsistent_fields)]
pub enum AstView {
    UnaryOperation { operator: UnaryOperator, operand: Box<AstView> },
    BinaryOperation { operator: BinaryOperator, left: Box<AstView>, right: Box<AstView> },
    FunctionCall { function: Seq<char>, args: Seq<AstView> },
    IntegerLiteral(i64),
    FloatLiteral(Seq<char>),
    BooleanLiteral(bool),
    StringLiteral(Seq<char>),
    Identifier(Seq<char>),
    MemberAccess { parent: Box<AstView>, child: Box<AstView> },
    LambdaFunction { params: Seq<AstView>, body: Seq<AstView> },
    FunctionDefinition {
        name: Seq<char>,
        return_type: TokenType,
        params: Seq<AstView>,
        body: Seq<AstView>,
    },
    IfStatement { condition: Box<AstView>, body: Seq<AstView> },
    ReturnStatement { value: Box<AstView> },
    UseStatement { namespace: Seq<char> },
    WhileLoop { condition: Box<AstView>, body: Seq<AstView> },
}

/// The views of the nodes of a list, in order.
pub open spec fn node_views(nodes: Seq<AstNode>) -> Seq<AstView>
    decreases nodes, 0nat,
{
    Seq::new(
        nodes.len(),
        |i: int|
            if 0 <= i < nodes.len() {
                nodes[i].model()
            } else {
                AstView::BooleanLiteral(false)
            },
    )
}

impl AstNode {
    /// The tree that this node stands for.
    pub open spec fn model(&self) -> AstView
        decreases self, 1nat,
    {
        match self {
            AstNode::UnaryOperation(op) => AstView::UnaryOperation {
                operator: op.operator,
                operand: Box::new(op.operand.model()),
            },
            AstNode::BinaryOperation(op) => AstView::BinaryOperation {
                operator: op.operator,
                left: Box::new(op.left_child.model()),
                right: Box::new(op.right_child.model()),
            },
            AstNode::FunctionCall(call) => AstView::FunctionCall {
                function: call.function@,
                args: node_views(call.args@),
            },
            AstNode::IntegerLiteral(v) => AstView::IntegerLiteral(*v),
            AstNode::FloatLiteral(s) => AstView::FloatLiteral(s@),
            AstNode::BooleanLiteral(b) => AstView::BooleanLiteral(*b),
            AstNode::StringLiteral(s) => AstView::StringLiteral(s@),
            AstNode::Identifier(s) => AstView::Identifier(s@),
            AstNode::MemberAccess(access) => AstView::MemberAccess {
                parent: Box::new(access.parent.model()),
                child: Box::new(access.child.model()),
            },
            AstNode::LambdaFunction { params, body } => AstView::LambdaFunction {
                params: node_views(params@),
                body: node_views(body@),
            },
            AstNode::FunctionDefinition(function) => AstView::FunctionDefinition {
                name: function.name@,
                return_type: function.return_type,
                params: node_views(function.param_list@),
                body: node_views(function.body@),
            },
            AstNode::IfStatement(statement) => AstView::IfStatement {
                condition: Box::new(statement.condition.model()),
                body: node_views(statement.body@),
            },
            AstNode::ReturnStatement(statement) => AstView::ReturnStatement {
                value: Box::new(statement.body.model()),
            },
            AstNode::UseStatement(statement) => AstView::UseStatement {
                namespace: statement.namespace@,
            },
            AstNode::WhileLoop(while_loop) => AstView::WhileLoop {
                condition: Box::new(while_loop.condition.model()),
                body: node_views(while_loop.body@),
            },
        }
    }
}

impl View for AstNode {
    type V = AstView;

    open spec fn view(&self) -> AstView {
        self.model()
    }
}

/// Adding a node at the end of a list adds its view at the end of the views.
pub proof fn lemma_node_views_push(nodes: Seq<AstNode>, node: AstNode)
    ensures
        node_views(nodes.push(node)) == node_views(nodes).push(node@),
{
    assert(node_views(nodes.push(node)) =~= node_views(nodes).push(node@));
}

} // verus!
