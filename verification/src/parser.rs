//! The parser: from a stream of tokens to a list of syntax trees, one for
//! each top-level statement.

pub mod ast;
pub mod grammar;
pub mod laws;

use crate::lexer::{
    advance, at_end, front, CanBeEof, PieToken, PieTokenStream, PieValue, TokenType, TokenView,
};
use crate::parser::ast::{
    lemma_node_views_push, node_views, AstNode, AstView, BinaryOperation, BinaryOperator,
    FunctionCall, FunctionDefinition, IfStatement, MemberAccess, ReturnStatement, UnaryOperation,
    UnaryOperator, UseStatement, WhileLoop,
};
use crate::parser::grammar::{
    after, argument_list, block, chain, consume, expect, expression, function_definition,
    identifier, if_statement, lambda, literal, member_access, more_arguments, more_params,
    negation, operand, param_list, parentheses, program, statement, unary, use_statement,
    while_loop, Level, Parsed, ParsedList,
};
use vstd::prelude::*;
use vstd::string::*;

verus! {

/// Why a stream of tokens is no program.
#[derive(Clone, Copy, Debug, PartialEq, Eq, Structural)]
pub enum SyntaxError {
    /// A token of one kind was required, and one of another kind was found.
    UnexpectedToken { expected: TokenType, found: TokenType },
    /// A token was required, and the stream had ended.
    UnexpectedEndOfInput,
    /// An operator, a `return` or a literal lacks its operand or its value.
    MissingOperand,
    /// No expression begins with a token of this kind.
    UnrecognizedToken { found: TokenType },
}

impl SyntaxError {
    /// The message for this error.
    pub open spec fn message_text(self) -> Seq<char> {
        match self {
            SyntaxError::UnexpectedToken { expected, found } => "Expected "@ + expected.name_text()
                + " found "@ + found.name_text(),
            SyntaxError::UnexpectedEndOfInput => "Reached end of token stream"@,
            SyntaxError::MissingOperand => "Expected an expression"@,
            SyntaxError::UnrecognizedToken { found } => "Unexpected token: "@ + found.name_text(),
        }
    }

    /// Describes the error in one line.
    pub fn message(&self) -> (r: String)
        ensures
            r@ == self.message_text(),
    {
        match self {
            SyntaxError::UnexpectedToken { expected, found } => {
                let mut out = String::from_str("Expected ");
                out.append(expected.name());
                out.append(" found ");
                out.append(found.name());
                out
            },
            SyntaxError::UnexpectedEndOfInput => String::from_str("Reached end of token stream"),
            SyntaxError::MissingOperand => String::from_str("Expected an expression"),
            SyntaxError::UnrecognizedToken { found } => {
                let mut out = String::from_str("Unexpected token: ");
                out.append(found.name());
                out
            },
        }
    }
}

/// Whether a parse came out as the grammar says: with the tree and the rest
/// that it gives, or with the error that it gives.
pub open spec fn parsed(
    result: Result<AstNode, SyntaxError>,
    rest: Seq<TokenView>,
    expected: Parsed,
) -> bool {
    match expected {
        Ok((tree, remaining)) => result is Ok && result->Ok_0@ == tree && rest == remaining,
        Err(e) => result is Err && result->Err_0 == e,
    }
}

/// Whether the parse of a list came out as the grammar says: with the trees
/// and the rest that it gives, or with the error that it gives.
pub open spec fn parsed_list(
    result: Result<Vec<AstNode>, SyntaxError>,
    rest: Seq<TokenView>,
    expected: ParsedList,
) -> bool {
    match expected {
        Ok((trees, remaining)) => result is Ok && node_views(result->Ok_0@) == trees && rest
            == remaining,
        Err(e) => result is Err && result->Err_0 == e,
    }
}

/// A parser on a stream of tokens. Its view is what remains of the stream.
pub struct Parser {
    token_stream: PieTokenStream,
}

impl View for Parser {
    type V = Seq<TokenView>;

    closed spec fn view(&self) -> Seq<TokenView> {
        self.token_stream@
    }
}

impl Parser {
    /// A parser that will read the given stream.
    pub fn new(token_stream: PieTokenStream) -> (r: Self)
        ensures
            r@ == token_stream@,
    {
        Parser { token_stream }
    }

    /// Gives the stream back, with what remains of it.
    pub fn into_stream(self) -> (r: PieTokenStream)
        ensures
            r@ == self@,
    {
        self.token_stream
    }

    /// Whether a token other than the end of the stream comes next.
    pub fn has_next(&self) -> (r: bool)
        ensures
            r == !at_end(self@),
    {
        !self.token_stream.is_eof()
    }

    /// Takes the next token.
    pub fn next_token(&mut self) -> (r: PieToken)
        ensures
            r@ == front(old(self)@),
            final(self)@ == advance(old(self)@),
    {
        self.token_stream.next_token()
    }

    /// The next token, which stays in the stream.
    pub fn peek(&self) -> (r: &PieToken)
        ensures
            r@ == front(self@),
    {
        self.token_stream.peek()
    }

    /// The precedence of the next token.
    pub fn next_token_precedence(&self) -> (r: i8)
        ensures
            r == front(self@).kind.precedence(),
    {
        self.peek().type_.precedence_level()
    }

    /// Requires that the next token be of the given kind.
    pub fn expect_next(&self, type_: TokenType) -> (r: Result<(), SyntaxError>)
        ensures
            r == expect(self@, type_),
    {
        if !self.has_next() {
            return Err(SyntaxError::UnexpectedEndOfInput);
        }
        let next = self.peek().type_;
        if next != type_ {
            return Err(SyntaxError::UnexpectedToken { expected: type_, found: next });
        }
        Ok(())
    }

    /// Requires that the next token be of the given kind, and takes it.
    fn take(&mut self, type_: TokenType) -> (r: Result<PieToken, SyntaxError>)
        ensures
            match consume(old(self)@, type_) {
                Ok(rest) => {
                    &&& r is Ok
                    &&& r->Ok_0@ == front(old(self)@)
                    &&& final(self)@ == rest
                    &&& rest.len() < old(self)@.len()
                },
                Err(e) => r is Err && r->Err_0 == e && final(self)@ == old(self)@,
            },
    {
        match self.expect_next(type_) {
            Ok(()) => Ok(self.next_token()),
            Err(e) => Err(e),
        }
    }

    /// Parses a whole program: statements up to the end of the stream.
    pub fn parse_program(&mut self) -> (r: Result<Vec<AstNode>, SyntaxError>)
        ensures
            parsed_list(r, final(self)@, program(old(self)@)),
            r is Ok ==> at_end(final(self)@),
    {
        let mut statements: Vec<AstNode> = Vec::new();
        proof {
            assert(node_views(statements@) =~= Seq::<AstView>::empty());
            lemma_after_nothing(program(self@));
        }
        while self.has_next()
            invariant
                program(old(self)@) == after(node_views(statements@), program(self@)),
            decreases self@.len(),
        {
            let ghost s = self@;
            let ghost done = node_views(statements@);
            let node = match self.parse_statement() {
                Ok(node) => node,
                Err(e) => {
                    return Err(e);
                },
            };
            proof {
                lemma_node_views_push(statements@, node);
                lemma_after_one(done, node@, program(self@));
            }
            statements.push(node);
        }
        proof {
            assert(node_views(statements@) + Seq::<AstView>::empty() =~= node_views(statements@));
        }
        Ok(statements)
    }

    /// Parses the statements of a block, up to a token of the kind that closes
    /// it or to the end of the stream.
    fn parse_block(&mut self, closing: TokenType) -> (r: Result<Vec<AstNode>, SyntaxError>)
        ensures
            parsed_list(r, final(self)@, block(old(self)@, closing)),
            r is Ok ==> final(self)@.len() <= old(self)@.len(),
        decreases old(self)@.len(), 45nat,
    {
        let mut body: Vec<AstNode> = Vec::new();
        proof {
            assert(node_views(body@) =~= Seq::<AstView>::empty());
            lemma_after_nothing(block(self@, closing));
        }
        while self.has_next() && self.peek().type_ != closing
            invariant
                block(old(self)@, closing) == after(node_views(body@), block(self@, closing)),
                self@.len() <= old(self)@.len(),
            decreases self@.len(),
        {
            let ghost done = node_views(body@);
            let node = match self.parse_statement() {
                Ok(node) => node,
                Err(e) => {
                    return Err(e);
                },
            };
            proof {
                lemma_node_views_push(body@, node);
                lemma_after_one(done, node@, block(self@, closing));
            }
            body.push(node);
        }
        proof {
            assert(node_views(body@) + Seq::<AstView>::empty() =~= node_views(body@));
        }
        Ok(body)
    }

    /// Parses a statement.
    pub fn parse_statement(&mut self) -> (r: Result<AstNode, SyntaxError>)
        ensures
            parsed(r, final(self)@, statement(old(self)@)),
            r is Ok ==> final(self)@.len() < old(self)@.len(),
        decreases old(self)@.len(), 44nat,
    {
        match self.peek().type_ {
            TokenType::Def => self.parse_function_definition(),
            TokenType::If => self.parse_if_statement(),
            TokenType::Use => self.parse_use_statement(),
            TokenType::While => self.parse_while_loop(),
            _ => self.parse_equality(),
        }
    }

    /// Parses `use` and the name of a namespace.
    pub fn parse_use_statement(&mut self) -> (r: Result<AstNode, SyntaxError>)
        ensures
            parsed(r, final(self)@, use_statement(old(self)@)),
            r is Ok ==> final(self)@.len() < old(self)@.len(),
    {
        self.take(TokenType::Use)?;
        let name = self.take(TokenType::Identifier)?;
        let node = UseStatement { namespace: name.lexeme };
        Ok(AstNode::UseStatement(node))
    }

    /// Parses a loop: `while`, a condition, `do`, a block and `done`.
    pub fn parse_while_loop(&mut self) -> (r: Result<AstNode, SyntaxError>)
        ensures
            parsed(r, final(self)@, while_loop(old(self)@)),
            r is Ok ==> final(self)@.len() < old(self)@.len(),
        decreases old(self)@.len(), 43nat,
    {
        self.take(TokenType::While)?;
        let condition = self.parse_equality()?;
        self.take(TokenType::Do)?;
        let body = self.parse_block(TokenType::Done)?;
        self.take(TokenType::Done)?;
        let while_loop = WhileLoop { condition: Box::new(condition), body };
        Ok(AstNode::WhileLoop(while_loop))
    }

    /// Parses the parameters of a function.
    pub fn parse_param_list(&mut self) -> (r: Result<Vec<AstNode>, SyntaxError>)
        ensures
            parsed_list(r, final(self)@, param_list(old(self)@)),
            r is Ok ==> final(self)@.len() <= old(self)@.len(),
        decreases old(self)@.len(), 44nat,
    {
        let mut args: Vec<AstNode> = Vec::new();
        if self.has_next() && self.peek().type_ == TokenType::RightParen {
            proof {
                assert(node_views(args@) =~= Seq::<AstView>::empty());
            }
            return Ok(args);
        }
        let first = self.parse_unary()?;
        proof {
            lemma_node_views_push(args@, first);
            assert(node_views(args@).push(first@) =~= seq![first@]);
        }
        args.push(first);
        while self.has_next() && self.peek().type_ == TokenType::Comma
            invariant
                param_list(old(self)@) == more_params(node_views(args@), self@),
                self@.len() < old(self)@.len(),
            decreases self@.len(),
        {
            self.next_token();
            if self.has_next() && self.peek().type_ != TokenType::Identifier {
                return Err(
                    SyntaxError::UnexpectedToken {
                        expected: TokenType::Identifier,
                        found: self.peek().type_,
                    },
                );
            }
            let next = self.parse_unary()?;
            proof {
                lemma_node_views_push(args@, next);
            }
            args.push(next);
        }
        Ok(args)
    }

    /// Parses the header of a function without a name. The node has no body.
    pub fn parse_lambda(&mut self) -> (r: Result<AstNode, SyntaxError>)
        ensures
            parsed(r, final(self)@, lambda(old(self)@)),
            r is Ok ==> final(self)@.len() < old(self)@.len(),
    {
        self.take(TokenType::LeftParen)?;
        let params = self.parse_param_list()?;
        self.take(TokenType::RightParen)?;
        self.take(TokenType::RightArrow)?;
        let body: Vec<AstNode> = Vec::new();
        proof {
            assert(node_views(body@) =~= Seq::<AstView>::empty());
        }
        Ok(AstNode::LambdaFunction { params, body })
    }

    /// Parses the operand of an operator of the given level.
    fn parse_operand(&mut self, level: Level) -> (r: Result<AstNode, SyntaxError>)
        ensures
            parsed(r, final(self)@, operand(old(self)@, level)),
            r is Ok ==> final(self)@.len() < old(self)@.len(),
        decreases old(self)@.len(), (level.rank() - 1) as nat,
    {
        match level {
            Level::Equality => self.parse_level(Level::Arithmetic),
            Level::Arithmetic => self.parse_level(Level::Term),
            Level::Term => self.parse_level(Level::Exponent),
            Level::Exponent => self.parse_unary(),
        }
    }

    /// Parses an expression of the given level: an operand and the operators
    /// of that level that follow it, each with its right operand.
    fn parse_level(&mut self, level: Level) -> (r: Result<AstNode, SyntaxError>)
        ensures
            parsed(r, final(self)@, expression(old(self)@, level)),
            r is Ok ==> final(self)@.len() < old(self)@.len(),
        decreases old(self)@.len(), level.rank(),
    {
        let mut left = self.parse_operand(level)?;
        let precedence_level: i8 = match level {
            Level::Equality => TokenType::EqualEqual.precedence_level(),
            Level::Arithmetic => TokenType::Plus.precedence_level(),
            Level::Term => TokenType::Asterisk.precedence_level(),
            Level::Exponent => TokenType::AsteriskAsterisk.precedence_level(),
        };
        while self.has_next() && self.next_token_precedence() == precedence_level
            invariant
                precedence_level == level.precedence(),
                expression(old(self)@, level) == chain(left@, self@, level),
                self@.len() < old(self)@.len(),
            decreases self@.len(),
        {
            let operator_token = self.next_token();
            let right = self.parse_operand(level)?;
            let operator = match BinaryOperator::from(&operator_token) {
                Some(operator) => operator,
                None => {
                    return Err(SyntaxError::UnrecognizedToken { found: operator_token.type_ });
                },
            };
            let operation = BinaryOperation {
                operator,
                left_child: Box::new(left),
                right_child: Box::new(right),
            };
            left = AstNode::BinaryOperation(operation);
        }
        Ok(left)
    }

    /// Parses an expression of the loosest level, that of the comparisons.
    pub fn parse_equality(&mut self) -> (r: Result<AstNode, SyntaxError>)
        ensures
            parsed(r, final(self)@, expression(old(self)@, Level::Equality)),
            r is Ok ==> final(self)@.len() < old(self)@.len(),
        decreases old(self)@.len(), 31nat,
    {
        self.parse_level(Level::Equality)
    }

    /// Parses an expression of the level of addition and subtraction.
    pub fn parse_arithmetic(&mut self) -> (r: Result<AstNode, SyntaxError>)
        ensures
            parsed(r, final(self)@, expression(old(self)@, Level::Arithmetic)),
            r is Ok ==> final(self)@.len() < old(self)@.len(),
        decreases old(self)@.len(), 28nat,
    {
        self.parse_level(Level::Arithmetic)
    }

    /// Parses an expression of the level of multiplication and division.
    pub fn parse_term(&mut self) -> (r: Result<AstNode, SyntaxError>)
        ensures
            parsed(r, final(self)@, expression(old(self)@, Level::Term)),
            r is Ok ==> final(self)@.len() < old(self)@.len(),
        decreases old(self)@.len(), 25nat,
    {
        self.parse_level(Level::Term)
    }

    /// Parses an expression of the level of exponentiation.
    pub fn parse_exponent(&mut self) -> (r: Result<AstNode, SyntaxError>)
        ensures
            parsed(r, final(self)@, expression(old(self)@, Level::Exponent)),
            r is Ok ==> final(self)@.len() < old(self)@.len(),
        decreases old(self)@.len(), 22nat,
    {
        self.parse_level(Level::Exponent)
    }

    /// Parses a literal: takes the next token and makes a node of its value.
    pub fn parse_literal(&mut self) -> (r: Result<AstNode, SyntaxError>)
        ensures
            parsed(r, final(self)@, literal(old(self)@)),
            final(self)@ == advance(old(self)@),
    {
        let token = self.next_token();
        match token.value {
            None => Err(SyntaxError::MissingOperand),
            Some(PieValue::IntegerLiteral(i)) => Ok(AstNode::IntegerLiteral(i)),
            Some(PieValue::FloatLiteral(f)) => Ok(AstNode::FloatLiteral(f)),
            Some(PieValue::StringLiteral(s)) => Ok(AstNode::StringLiteral(s)),
            Some(PieValue::FormatStringLiteral(_)) => Err(
                SyntaxError::UnexpectedToken { expected: TokenType::Integer, found: token.type_ },
            ),
        }
    }

    /// Parses the arguments of a call.
    pub fn parse_argument_list(&mut self) -> (r: Result<Vec<AstNode>, SyntaxError>)
        ensures
            parsed_list(r, final(self)@, argument_list(old(self)@)),
            r is Ok ==> final(self)@.len() <= old(self)@.len(),
        decreases old(self)@.len(), 44nat,
    {
        let mut args: Vec<AstNode> = Vec::new();
        if self.has_next() && self.peek().type_ == TokenType::RightParen {
            proof {
                assert(node_views(args@) =~= Seq::<AstView>::empty());
            }
            return Ok(args);
        }
        let first = self.parse_equality()?;
        proof {
            lemma_node_views_push(args@, first);
            assert(node_views(args@).push(first@) =~= seq![first@]);
        }
        args.push(first);
        while self.has_next() && self.peek().type_ == TokenType::Comma
            invariant
                argument_list(old(self)@) == more_arguments(node_views(args@), self@),
                self@.len() < old(self)@.len(),
            decreases self@.len(),
        {
            self.next_token();
            let next = self.parse_equality()?;
            proof {
                lemma_node_views_push(args@, next);
            }
            args.push(next);
        }
        Ok(args)
    }

    /// Parses a unary expression.
    pub fn parse_unary(&mut self) -> (r: Result<AstNode, SyntaxError>)
        ensures
            parsed(r, final(self)@, unary(old(self)@)),
            r is Ok ==> final(self)@.len() < old(self)@.len(),
        decreases old(self)@.len(), 18nat,
    {
        if !self.has_next() {
            return Err(SyntaxError::MissingOperand);
        }
        match self.peek().type_ {
            TokenType::Integer | TokenType::Float | TokenType::String => self.parse_literal(),
            TokenType::True => {
                self.next_token();
                Ok(AstNode::BooleanLiteral(true))
            },
            TokenType::False => {
                self.next_token();
                Ok(AstNode::BooleanLiteral(false))
            },
            TokenType::Return => {
                self.next_token();
                if !self.has_next() {
                    return Err(SyntaxError::MissingOperand);
                }
                let expr = ReturnStatement { body: Box::new(self.parse_equality()?) };
                Ok(AstNode::ReturnStatement(expr))
            },
            TokenType::Identifier => self.parse_identifier(),
            TokenType::LeftParen => self.parse_parentheses(),
            TokenType::Minus => self.parse_negation(UnaryOperator::Minus),
            TokenType::Bang => self.parse_negation(UnaryOperator::LogicalNot),
            other => Err(SyntaxError::UnrecognizedToken { found: other }),
        }
    }

    /// Parses a unary operator, which is the next token, and its operand.
    fn parse_negation(&mut self, operator: UnaryOperator) -> (r: Result<AstNode, SyntaxError>)
        ensures
            parsed(r, final(self)@, negation(old(self)@, operator)),
            r is Ok ==> final(self)@.len() < old(self)@.len(),
        decreases old(self)@.len(), 17nat,
    {
        if !self.has_next() {
            return Err(SyntaxError::MissingOperand);
        }
        self.next_token();
        if !self.has_next() {
            return Err(SyntaxError::MissingOperand);
        }
        let expr = self.parse_unary()?;
        let operation = UnaryOperation { operator, operand: Box::new(expr) };
        Ok(AstNode::UnaryOperation(operation))
    }

    /// Parses a dot and the member of `parent` that is accessed.
    pub fn parse_member_access(&mut self, parent: AstNode) -> (r: Result<AstNode, SyntaxError>)
        ensures
            parsed(r, final(self)@, member_access(parent@, old(self)@)),
            r is Ok ==> final(self)@.len() < old(self)@.len(),
        decreases old(self)@.len(), 16nat,
    {
        self.take(TokenType::Dot)?;
        self.expect_next(TokenType::Identifier)?;
        let child = self.parse_identifier()?;
        let node = MemberAccess { parent: Box::new(parent), child: Box::new(child) };
        Ok(AstNode::MemberAccess(node))
    }

    /// Parses an identifier, which is the next token, with the member access
    /// or the call that belongs to it.
    pub fn parse_identifier(&mut self) -> (r: Result<AstNode, SyntaxError>)
        ensures
            parsed(r, final(self)@, identifier(old(self)@)),
            r is Ok && !at_end(old(self)@) ==> final(self)@.len() < old(self)@.len(),
        decreases old(self)@.len(), 17nat,
    {
        let token = self.next_token();
        let value = token.lexeme;
        if self.peek().type_ == TokenType::Dot {
            let node = AstNode::Identifier(value);
            return self.parse_member_access(node);
        }
        if self.peek().type_ == TokenType::LeftParen {
            self.next_token();
            let args = self.parse_argument_list()?;
            self.take(TokenType::RightParen)?;
            let call = FunctionCall { function: value, args };
            return Ok(AstNode::FunctionCall(call));
        }
        Ok(AstNode::Identifier(value))
    }

    /// Parses an expression between parentheses.
    pub fn parse_parentheses(&mut self) -> (r: Result<AstNode, SyntaxError>)
        ensures
            parsed(r, final(self)@, parentheses(old(self)@)),
            r is Ok ==> final(self)@.len() < old(self)@.len(),
        decreases old(self)@.len(), 17nat,
    {
        if !self.has_next() {
            return Err(SyntaxError::UnexpectedEndOfInput);
        }
        self.next_token();
        let expr = self.parse_equality()?;
        self.take(TokenType::RightParen)?;
        Ok(expr)
    }

    /// Parses the definition of a function.
    pub fn parse_function_definition(&mut self) -> (r: Result<AstNode, SyntaxError>)
        ensures
            parsed(r, final(self)@, function_definition(old(self)@)),
            r is Ok ==> final(self)@.len() < old(self)@.len(),
        decreases old(self)@.len(), 43nat,
    {
        self.take(TokenType::Def)?;
        let identifier = self.take(TokenType::Identifier)?.lexeme;
        self.take(TokenType::LeftParen)?;
        let params = self.parse_param_list()?;
        self.take(TokenType::RightParen)?;
        self.take(TokenType::RightArrow)?;
        let return_type = self.take(TokenType::Identifier)?.type_;
        let body = self.parse_block(TokenType::EndDef)?;
        self.take(TokenType::EndDef)?;
        let function = FunctionDefinition {
            name: identifier,
            return_type,
            param_list: params,
            body,
        };
        Ok(AstNode::FunctionDefinition(function))
    }

    /// Parses a conditional: `if`, a condition, `then`, a block and `endif`.
    pub fn parse_if_statement(&mut self) -> (r: Result<AstNode, SyntaxError>)
        ensures
            parsed(r, final(self)@, if_statement(old(self)@)),
            r is Ok ==> final(self)@.len() < old(self)@.len(),
        decreases old(self)@.len(), 43nat,
    {
        self.take(TokenType::If)?;
        let condition = self.parse_equality()?;
        self.take(TokenType::Then)?;
        let body = self.parse_block(TokenType::EndIf)?;
        self.take(TokenType::EndIf)?;
        let if_statement = IfStatement { condition: Box::new(condition), body };
        Ok(AstNode::IfStatement(if_statement))
    }
}

/// Putting nothing before a list result leaves it as it is.
pub proof fn lemma_after_nothing(rest: ParsedList)
    ensures
        after(Seq::empty(), rest) == rest,
{
    if let Ok((trees, remaining)) = rest {
        assert(Seq::<AstView>::empty() + trees =~= trees);
    }
}

/// Putting `head` and then `next` before a list result is putting `head` with
/// `next` at its end before it.
pub proof fn lemma_after_one(head: Seq<AstView>, next: AstView, rest: ParsedList)
    ensures
        after(head, after(seq![next], rest)) == after(head.push(next), rest),
{
    if let Ok((trees, remaining)) = rest {
        assert(head + (seq![next] + trees) =~= head.push(next) + trees);
    }
}

/// Parses the tokens of a stream as a program: gives the trees of its
/// top-level statements, in order, or the first error. On success the whole
/// stream has been read.
pub fn generate_ast(token_stream: &mut PieTokenStream) -> (r: Result<Vec<AstNode>, SyntaxError>)
    ensures
        parsed_list(r, final(token_stream)@, program(old(token_stream)@)),
        r is Ok ==> at_end(final(token_stream)@),
{
    let mut taken = PieTokenStream::from(Vec::new());
    core::mem::swap(token_stream, &mut taken);
    let mut parser = Parser::new(taken);
    let r = parser.parse_program();
    *token_stream = parser.into_stream();
    r
}

} // verus!
