//! The generator: from a syntax tree to Python text.
//!
//! What is written for a tree is defined by [`rendering::render`].

pub mod laws;
pub mod rendering;

use crate::parser::ast::{
    node_views, AstNode, AstView, BinaryOperation, BinaryOperator, FunctionCall,
    FunctionDefinition, IfStatement, MemberAccess, ReturnStatement, UnaryOperation, UnaryOperator,
    WhileLoop,
};
use crate::text::render_decimal;
use crate::transpiler::rendering::{
    binary_operator_text, depth, depth_of_first, indentation, render, render_block, render_list,
    unary_operator_text, Rendering,
};
use vstd::prelude::*;
use vstd::string::*;

verus! {

/// Why a tree has no text.
#[derive(Clone, Copy, Debug, PartialEq, Eq, Structural)]
pub enum GenerationError {
    /// The tree holds a function without a name, for which no text is
    /// defined.
    UnimplementedLambda,
}

impl GenerationError {
    /// The message for this error.
    pub open spec fn message_text(self) -> Seq<char> {
        match self {
            GenerationError::UnimplementedLambda => "Functions without a name cannot be written"@,
        }
    }

    /// Describes the error in one line.
    pub fn message(&self) -> (r: String)
        ensures
            r@ == self.message_text(),
    {
        match self {
            GenerationError::UnimplementedLambda => String::from_str(
                "Functions without a name cannot be written",
            ),
        }
    }
}

/// Whether a rendering came out as defined: with the text, or with the error.
pub open spec fn rendered(result: Result<String, GenerationError>, expected: Rendering) -> bool {
    match expected {
        Ok(text) => result is Ok && result->Ok_0@ == text,
        Err(e) => result is Err && result->Err_0 == e,
    }
}

/// Whether the indentation counter can take a tree that is rendered from the
/// given level on.
pub open spec fn fits(level: nat, node: AstView) -> bool {
    level + depth(node) <= u16::MAX
}

/// Whether the indentation counter can take a list of trees that are rendered
/// from the given level on.
pub open spec fn all_fit(level: nat, nodes: Seq<AstView>) -> bool {
    level + depth_of_first(nodes, nodes.len()) <= u16::MAX
}

/// No tree among the first `n` of a list is deeper than the deepest of them.
pub proof fn lemma_depth_of_first(nodes: Seq<AstView>, n: nat, i: int)
    requires
        0 <= i < n <= nodes.len(),
    ensures
        depth(nodes[i]) <= depth_of_first(nodes, n),
        depth_of_first(nodes, i as nat) <= depth_of_first(nodes, n),
    decreases n,
{
    if i < n - 1 {
        lemma_depth_of_first(nodes, (n - 1) as nat, i);
    }
}

/// Tells whether every tree of a list is at most `limit` levels deep.
pub fn all_within(nodes: &Vec<AstNode>, limit: u16) -> (r: bool)
    ensures
        r == (depth_of_first(node_views(nodes@), nodes.len() as nat) <= limit),
    decreases nodes,
{
    let ghost views = node_views(nodes@);
    let mut i: usize = 0;
    while i < nodes.len()
        invariant
            i <= nodes.len(),
            views == node_views(nodes@),
            depth_of_first(views, i as nat) <= limit,
        decreases nodes.len() - i,
    {
        proof {
            lemma_depth_of_first(views, nodes.len() as nat, i as int);
        }
        if !depth_within(&nodes[i], limit) {
            return false;
        }
        i = i + 1;
    }
    true
}

/// Tells whether a tree is at most `limit` levels deep. A tree can be handed
/// to [`transpile`] if it is at most `u16::MAX` levels deep.
pub fn depth_within(node: &AstNode, limit: u16) -> (r: bool)
    ensures
        r == (depth(node@) <= limit),
    decreases node,
{
    match node {
        AstNode::UnaryOperation(operation) => depth_within(&operation.operand, limit),
        AstNode::BinaryOperation(operation) => depth_within(&operation.left_child, limit)
            && depth_within(&operation.right_child, limit),
        AstNode::FunctionCall(call) => all_within(&call.args, limit),
        AstNode::MemberAccess(access) => depth_within(&access.parent, limit) && depth_within(
            &access.child,
            limit,
        ),
        AstNode::FunctionDefinition(function) => all_within(&function.param_list, limit) && limit
            > 0 && all_within(&function.body, limit - 1),
        AstNode::IfStatement(statement) => depth_within(&statement.condition, limit) && limit > 0
            && all_within(&statement.body, limit - 1),
        AstNode::WhileLoop(while_loop) => depth_within(&while_loop.condition, limit) && limit > 0
            && all_within(&while_loop.body, limit - 1),
        AstNode::ReturnStatement(statement) => depth_within(&statement.body, limit),
        _ => true,
    }
}

/// The state of the generator: the level of indentation at which it writes.
pub struct PythonTranspiler {
    indent: u16,
}

impl PythonTranspiler {
    /// The level of indentation.
    pub closed spec fn level(&self) -> nat {
        self.indent as nat
    }

    /// A generator at level zero.
    pub fn new() -> (r: Self)
        ensures
            r.level() == 0,
    {
        Self { indent: 0 }
    }

    /// The indentation of a line at the current level: one tab for each
    /// level.
    pub fn indent_code(&self) -> (r: String)
        ensures
            r@ == indentation(self.level()),
    {
        let mut out = String::new();
        let mut i: u16 = 0;
        assert(out@ =~= indentation(0));
        while i < self.indent
            invariant
                i <= self.indent,
                out@ == indentation(i as nat),
            decreases self.indent - i,
        {
            proof {
                reveal_strlit("\t");
            }
            out.append("\t");
            i = i + 1;
            assert(out@ =~= indentation(i as nat));
        }
        out
    }

    /// Writes an operator applied to one operand.
    pub fn transpile_unary_operation(&mut self, operation: &UnaryOperation) -> (r: Result<
        String,
        GenerationError,
    >)
        requires
            fits(old(self).level(), AstNode::UnaryOperation(*operation)@),
        ensures
            final(self).level() == old(self).level(),
            rendered(r, render(AstNode::UnaryOperation(*operation)@, old(self).level())),
        decreases operation, 0nat,
    {
        let operand = self.generate_python(&operation.operand)?;
        let operator = self.transpile_unary_operator(&operation.operator);
        let mut out = String::from_str(operator);
        out.append(operand.as_str());
        Ok(out)
    }

    /// Writes an operator applied to two operands, with a space on either
    /// side of it.
    pub fn transpile_binary_operation(&mut self, operation: &BinaryOperation) -> (r: Result<
        String,
        GenerationError,
    >)
        requires
            fits(old(self).level(), AstNode::BinaryOperation(*operation)@),
        ensures
            final(self).level() == old(self).level(),
            rendered(r, render(AstNode::BinaryOperation(*operation)@, old(self).level())),
        decreases operation, 0nat,
    {
        let operator = self.transpile_binary_operator(&operation.operator);
        let left = self.generate_python(&operation.left_child)?;
        let right = self.generate_python(&operation.right_child)?;
        let mut out = left;
        out.append(" ");
        out.append(operator);
        out.append(" ");
        out.append(right.as_str());
        Ok(out)
    }

    /// Writes the trees of a list with a comma and a space between one and
    /// the next.
    fn transpile_list(&mut self, nodes: &Vec<AstNode>) -> (r: Result<String, GenerationError>)
        requires
            all_fit(old(self).level(), node_views(nodes@)),
        ensures
            final(self).level() == old(self).level(),
            rendered(
                r,
                render_list(node_views(nodes@), nodes.len() as nat, old(self).level()),
            ),
        decreases nodes, 0nat,
    {
        let ghost views = node_views(nodes@);
        let mut out = String::new();
        let mut i: usize = 0;
        while i < nodes.len()
            invariant
                i <= nodes.len(),
                views == node_views(nodes@),
                self.level() == old(self).level(),
                all_fit(self.level(), views),
                render_list(views, i as nat, self.level()) == Ok::<Seq<char>, GenerationError>(
                    out@,
                ),
            decreases nodes.len() - i,
        {
            proof {
                lemma_depth_of_first(views, nodes.len() as nat, i as int);
            }
            let item = match self.generate_python(&nodes[i]) {
                Ok(item) => item,
                Err(e) => {
                    proof {
                        lemma_list_fails(views, nodes.len() as nat, i as int, self.level());
                    }
                    return Err(e);
                },
            };
            if i > 0 {
                out.append(", ");
            }
            out.append(item.as_str());
            i = i + 1;
        }
        Ok(out)
    }

    /// Writes the name of a function and its arguments between parentheses.
    pub fn transpile_function_call(&mut self, call: &FunctionCall) -> (r: Result<
        String,
        GenerationError,
    >)
        requires
            fits(old(self).level(), AstNode::FunctionCall(*call)@),
        ensures
            final(self).level() == old(self).level(),
            rendered(r, render(AstNode::FunctionCall(*call)@, old(self).level())),
        decreases call, 0nat,
    {
        let args = self.transpile_list(&call.args)?;
        let mut out = call.function.clone();
        out.append("(");
        out.append(args.as_str());
        out.append(")");
        Ok(out)
    }

    /// Writes `parent.child`.
    pub fn transpile_member_access(&mut self, access: &MemberAccess) -> (r: Result<
        String,
        GenerationError,
    >)
        requires
            fits(old(self).level(), AstNode::MemberAccess(*access)@),
        ensures
            final(self).level() == old(self).level(),
            rendered(r, render(AstNode::MemberAccess(*access)@, old(self).level())),
        decreases access, 0nat,
    {
        let parent = self.generate_python(&access.parent)?;
        let child = self.generate_python(&access.child)?;
        let mut out = parent;
        out.append(".");
        out.append(child.as_str());
        Ok(out)
    }

    /// Writes the statements of a block as lines at the current level: each
    /// is the indentation, the statement and a line break.
    pub fn transpile_block(&mut self, block: &Vec<AstNode>) -> (r: Result<String, GenerationError>)
        requires
            all_fit(old(self).level(), node_views(block@)),
        ensures
            final(self).level() == old(self).level(),
            rendered(
                r,
                render_block(node_views(block@), block.len() as nat, old(self).level()),
            ),
        decreases block, 0nat,
    {
        let ghost views = node_views(block@);
        let mut out = String::new();
        let mut i: usize = 0;
        while i < block.len()
            invariant
                i <= block.len(),
                views == node_views(block@),
                self.level() == old(self).level(),
                all_fit(self.level(), views),
                render_block(views, i as nat, self.level()) == Ok::<Seq<char>, GenerationError>(
                    out@,
                ),
            decreases block.len() - i,
        {
            proof {
                lemma_depth_of_first(views, block.len() as nat, i as int);
            }
            let line = match self.generate_python(&block[i]) {
                Ok(line) => line,
                Err(e) => {
                    proof {
                        lemma_block_fails(views, block.len() as nat, i as int, self.level());
                    }
                    return Err(e);
                },
            };
            let indentation = self.indent_code();
            out.append(indentation.as_str());
            out.append(line.as_str());
            out.append("\n");
            i = i + 1;
        }
        Ok(out)
    }

    /// Writes the body of a block one level deeper than the current one.
    fn transpile_body(&mut self, body: &Vec<AstNode>) -> (r: Result<String, GenerationError>)
        requires
            old(self).level() + 1 + depth_of_first(node_views(body@), body.len() as nat)
                <= u16::MAX,
        ensures
            final(self).level() == old(self).level(),
            rendered(
                r,
                render_block(node_views(body@), body.len() as nat, old(self).level() + 1),
            ),
        decreases body, 1nat,
    {
        self.increase_indent();
        let text = self.transpile_block(body);
        self.decrease_indent();
        text
    }

    /// Writes the definition of a function: a header and the body, one level
    /// deeper.
    pub fn transpile_function_definition(&mut self, function: &FunctionDefinition) -> (r: Result<
        String,
        GenerationError,
    >)
        requires
            fits(old(self).level(), AstNode::FunctionDefinition(*function)@),
        ensures
            final(self).level() == old(self).level(),
            rendered(r, render(AstNode::FunctionDefinition(*function)@, old(self).level())),
        decreases function, 0nat,
    {
        let params = self.transpile_list(&function.param_list)?;
        let body = self.transpile_body(&function.body)?;
        let mut out = String::from_str("def ");
        out.append(function.name.as_str());
        out.append("(");
        out.append(params.as_str());
        out.append("):\n");
        out.append(body.as_str());
        Ok(out)
    }

    /// Writes a conditional: a header and the body, one level deeper.
    pub fn transpile_if_statement(&mut self, statement: &IfStatement) -> (r: Result<
        String,
        GenerationError,
    >)
        requires
            fits(old(self).level(), AstNode::IfStatement(*statement)@),
        ensures
            final(self).level() == old(self).level(),
            rendered(r, render(AstNode::IfStatement(*statement)@, old(self).level())),
        decreases statement, 0nat,
    {
        let condition = self.generate_python(&statement.condition)?;
        let body = self.transpile_body(&statement.body)?;
        let mut out = String::from_str("if ");
        out.append(condition.as_str());
        out.append(":\n");
        out.append(body.as_str());
        Ok(out)
    }

    /// Writes `return` and the value.
    pub fn transpile_return_statement(&mut self, statement: &ReturnStatement) -> (r: Result<
        String,
        GenerationError,
    >)
        requires
            fits(old(self).level(), AstNode::ReturnStatement(*statement)@),
        ensures
            final(self).level() == old(self).level(),
            rendered(r, render(AstNode::ReturnStatement(*statement)@, old(self).level())),
        decreases statement, 0nat,
    {
        let value = self.generate_python(&statement.body)?;
        let mut out = String::from_str("return ");
        out.append(value.as_str());
        Ok(out)
    }

    /// Writes a loop: a header and the body, one level deeper.
    pub fn transpile_while_loop(&mut self, while_loop: &WhileLoop) -> (r: Result<
        String,
        GenerationError,
    >)
        requires
            fits(old(self).level(), AstNode::WhileLoop(*while_loop)@),
        ensures
            final(self).level() == old(self).level(),
            rendered(r, render(AstNode::WhileLoop(*while_loop)@, old(self).level())),
        decreases while_loop, 0nat,
    {
        let condition = self.generate_python(&while_loop.condition)?;
        let body = self.transpile_body(&while_loop.body)?;
        let mut out = String::from_str("while ");
        out.append(condition.as_str());
        out.append(":\n");
        out.append(body.as_str());
        Ok(out)
    }

    /// Goes one level of indentation deeper, and gives the new level.
    pub fn increase_indent(&mut self) -> (r: u16)
        requires
            old(self).level() < u16::MAX,
        ensures
            final(self).level() == old(self).level() + 1,
            r == final(self).level(),
    {
        self.indent = self.indent + 1;
        self.indent
    }

    /// Comes one level of indentation back, unless the level is zero, and
    /// gives the new level.
    pub fn decrease_indent(&mut self) -> (r: u16)
        ensures
            final(self).level() == (if old(self).level() == 0 {
                0
            } else {
                old(self).level() - 1
            }),
            r == final(self).level(),
    {
        if self.indent > 0 {
            self.indent = self.indent - 1;
        }
        self.indent
    }

    /// Writes a tree as Python text, at the current level of indentation.
    pub fn generate_python(&mut self, program: &AstNode) -> (r: Result<String, GenerationError>)
        requires
            fits(old(self).level(), program@),
        ensures
            final(self).level() == old(self).level(),
            rendered(r, render(program@, old(self).level())),
        decreases program, 0nat,
    {
        match program {
            AstNode::UnaryOperation(operation) => self.transpile_unary_operation(operation),
            AstNode::BinaryOperation(operation) => self.transpile_binary_operation(operation),
            AstNode::FunctionCall(call) => self.transpile_function_call(call),
            AstNode::IntegerLiteral(x) => Ok(render_decimal(*x)),
            AstNode::FloatLiteral(x) => Ok(x.clone()),
            AstNode::BooleanLiteral(x) => Ok(
                String::from_str(
                    if *x {
                        "True"
                    } else {
                        "False"
                    },
                ),
            ),
            AstNode::StringLiteral(x) => {
                let mut out = String::from_str("\"");
                out.append(x.as_str());
                out.append("\"");
                Ok(out)
            },
            AstNode::Identifier(x) => Ok(x.clone()),
            AstNode::MemberAccess(access) => self.transpile_member_access(access),
            AstNode::LambdaFunction { .. } => Err(GenerationError::UnimplementedLambda),
            AstNode::FunctionDefinition(function) => self.transpile_function_definition(function),
            AstNode::IfStatement(statement) => self.transpile_if_statement(statement),
            AstNode::ReturnStatement(statement) => self.transpile_return_statement(statement),
            AstNode::WhileLoop(while_loop) => self.transpile_while_loop(while_loop),
            AstNode::UseStatement(use_statement) => {
                let mut out = String::from_str("import ");
                out.append(use_statement.namespace.as_str());
                Ok(out)
            },
        }
    }

    /// The spelling of an operator with one operand.
    pub fn transpile_unary_operator(&self, operator: &UnaryOperator) -> (r: &'static str)
        ensures
            r@ == unary_operator_text(*operator),
    {
        match operator {
            UnaryOperator::Minus => "-",
            UnaryOperator::LogicalNot => "not ",
        }
    }

    /// The spelling of an operator with two operands.
    pub fn transpile_binary_operator(&self, operator: &BinaryOperator) -> (r: &'static str)
        ensures
            r@ == binary_operator_text(*operator),
    {
        match operator {
            BinaryOperator::Plus => "+",
            BinaryOperator::Minus => "-",
            BinaryOperator::Asterisk => "*",
            BinaryOperator::Slash => "/",
            BinaryOperator::PlusEqual => "+=",
            BinaryOperator::MinusEqual => "-=",
            BinaryOperator::AsteriskEqual => "*=",
            BinaryOperator::Exponent => "**",
            BinaryOperator::SlashEqual => "/=",
            BinaryOperator::Modulus => "%",
            BinaryOperator::ModulusEqual => "%=",
            BinaryOperator::Equal => "=",
            BinaryOperator::EqualEqual => "==",
            BinaryOperator::BangEqual => "!=",
            BinaryOperator::Less => "<",
            BinaryOperator::Greater => ">",
            BinaryOperator::LessEqual => "<=",
            BinaryOperator::GreaterEqual => ">=",
            BinaryOperator::Or => "or",
            BinaryOperator::And => "and",
        }
    }
}

/// Where one tree of a list has no text, the list has none.
pub proof fn lemma_list_fails(nodes: Seq<AstView>, n: nat, i: int, level: nat)
    requires
        0 <= i < n <= nodes.len(),
        render(nodes[i], level) is Err,
    ensures
        render_list(nodes, n, level) == Err::<Seq<char>, GenerationError>(
            GenerationError::UnimplementedLambda,
        ),
    decreases n,
{
    if i < n - 1 {
        lemma_list_fails(nodes, (n - 1) as nat, i, level);
    }
}

/// Where one statement of a block has no text, the block has none.
pub proof fn lemma_block_fails(nodes: Seq<AstView>, n: nat, i: int, level: nat)
    requires
        0 <= i < n <= nodes.len(),
        render(nodes[i], level) is Err,
    ensures
        render_block(nodes, n, level) == Err::<Seq<char>, GenerationError>(
            GenerationError::UnimplementedLambda,
        ),
    decreases n,
{
    if i < n - 1 {
        lemma_block_fails(nodes, (n - 1) as nat, i, level);
    }
}

/// Writes a tree as Python text, from level zero of indentation. Fails only
/// where the tree holds a function without a name.
pub fn transpile(program: &AstNode) -> (r: Result<String, GenerationError>)
    requires
        depth(program@) <= u16::MAX,
    ensures
        rendered(r, render(program@, 0)),
{
    PythonTranspiler::new().generate_python(program)
}

} // verus!
