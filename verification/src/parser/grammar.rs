//! The grammar of the language, as functions from the tokens that remain to
//! the tree that is parsed and the tokens that remain after it.
//!
//! Every rule either fails with the first error or gives back a tree and
//! what remains. The rules are defined by recursion on the number of tokens
//! that remain, so where a rule goes on after a smaller rule, it does so on
//! condition that the smaller rule has taken a token. The condition always
//! holds: the lemmas at the end of this file prove that every rule that
//! succeeds leaves fewer tokens than it found.

use crate::lexer::{advance, at_end, front, TokenType, TokenView, ValueView};
use crate::parser::ast::{AstView, BinaryOperator, UnaryOperator};
use crate::parser::SyntaxError;
use vstd::prelude::*;

verus! {

/// A tree and the tokens that remain after it, or an error.
pub type Parsed = Result<(AstView, Seq<TokenView>), SyntaxError>;

/// A list of trees and the tokens that remain after them, or an error.
pub type ParsedList = Result<(Seq<AstView>, Seq<TokenView>), SyntaxError>;

/// The four levels of operators with two operands, loosest first.
#[derive(Clone, Copy, Debug, PartialEq, Eq, Structural)]
pub enum Level {
    /// `==`, `!=`, `<`, `>`, `<=`, `>=`.
    Equality,
    /// `+`, `-`, `&&`, `||`.
    Arithmetic,
    /// `*`, `/`, `%`.
    Term,
    /// `**`.
    Exponent,
}

impl Level {
    /// The precedence of the operators of this level.
    pub open spec fn precedence(self) -> int {
        match self {
            Level::Equality => 1,
            Level::Arithmetic => 3,
            Level::Term => 4,
            Level::Exponent => 5,
        }
    }

    /// The place of the level among the rules: the tighter the level, the
    /// lower.
    pub open spec fn rank(self) -> nat {
        match self {
            Level::Equality => 30,
            Level::Arithmetic => 27,
            Level::Term => 24,
            Level::Exponent => 21,
        }
    }
}

/// A list result with `head` put before its trees.
pub open spec fn after(head: Seq<AstView>, rest: ParsedList) -> ParsedList {
    match rest {
        Ok((trees, remaining)) => Ok((head + trees, remaining)),
        Err(e) => Err(e),
    }
}

/// Requires that the next token be of the given kind: fails at the end of the
/// stream, and where the next token is of another kind.
pub open spec fn expect(s: Seq<TokenView>, kind: TokenType) -> Result<(), SyntaxError> {
    if at_end(s) {
        Err(SyntaxError::UnexpectedEndOfInput)
    } else if front(s).kind != kind {
        Err(SyntaxError::UnexpectedToken { expected: kind, found: front(s).kind })
    } else {
        Ok(())
    }
}

/// Requires that the next token be of the given kind and takes it: gives what
/// remains after it.
pub open spec fn consume(s: Seq<TokenView>, kind: TokenType) -> Result<
    Seq<TokenView>,
    SyntaxError,
> {
    match expect(s, kind) {
        Ok(()) => Ok(advance(s)),
        Err(e) => Err(e),
    }
}

/// A literal: the next token, which must carry the value of an integer, a
/// float or a string.
pub open spec fn literal(s: Seq<TokenView>) -> Parsed {
    match front(s).value {
        None => Err(SyntaxError::MissingOperand),
        Some(ValueView::IntegerLiteral(v)) => Ok((AstView::IntegerLiteral(v), advance(s))),
        Some(ValueView::FloatLiteral(text)) => Ok((AstView::FloatLiteral(text), advance(s))),
        Some(ValueView::StringLiteral(text)) => Ok((AstView::StringLiteral(text), advance(s))),
        Some(ValueView::FormatStringLiteral(_)) => Err(
            SyntaxError::UnexpectedToken { expected: TokenType::Integer, found: front(s).kind },
        ),
    }
}

/// `use` and the name of a namespace.
pub open spec fn use_statement(s: Seq<TokenView>) -> Parsed {
    match consume(s, TokenType::Use) {
        Err(e) => Err(e),
        Ok(s1) => match consume(s1, TokenType::Identifier) {
            Err(e) => Err(e),
            Ok(s2) => Ok((AstView::UseStatement { namespace: front(s1).lexeme }, s2)),
        },
    }
}

/// The start of a function definition: `def`, the name and the opening
/// parenthesis. Gives the name and what remains.
pub open spec fn function_header(s: Seq<TokenView>) -> Result<
    (Seq<char>, Seq<TokenView>),
    SyntaxError,
> {
    match consume(s, TokenType::Def) {
        Err(e) => Err(e),
        Ok(s1) => match consume(s1, TokenType::Identifier) {
            Err(e) => Err(e),
            Ok(s2) => match consume(s2, TokenType::LeftParen) {
                Err(e) => Err(e),
                Ok(s3) => Ok((front(s1).lexeme, s3)),
            },
        },
    }
}

/// What follows the parameters of a function definition: the closing
/// parenthesis, `->` and the return type. Gives the kind of the token that
/// declares the return type, and what remains.
pub open spec fn function_return(s: Seq<TokenView>) -> Result<
    (TokenType, Seq<TokenView>),
    SyntaxError,
> {
    match consume(s, TokenType::RightParen) {
        Err(e) => Err(e),
        Ok(s1) => match consume(s1, TokenType::RightArrow) {
            Err(e) => Err(e),
            Ok(s2) => match consume(s2, TokenType::Identifier) {
                Err(e) => Err(e),
                Ok(s3) => Ok((front(s2).kind, s3)),
            },
        },
    }
}

/// The statements of a whole program: statements up to the end of the stream.
pub open spec fn program(s: Seq<TokenView>) -> ParsedList
    decreases s.len(), 46nat,
{
    if at_end(s) {
        Ok((Seq::empty(), s))
    } else {
        match statement(s) {
            Err(e) => Err(e),
            Ok((first, rest)) => if rest.len() < s.len() {
                match program(rest) {
                    Err(e) => Err(e),
                    Ok((others, end)) => Ok((seq![first] + others, end)),
                }
            } else {
                Err(SyntaxError::UnexpectedEndOfInput)
            },
        }
    }
}

/// The statements of a block: statements up to a token of the kind that
/// closes the block, or to the end of the stream.
pub open spec fn block(s: Seq<TokenView>, closing: TokenType) -> ParsedList
    decreases s.len(), 45nat,
{
    if at_end(s) || front(s).kind == closing {
        Ok((Seq::empty(), s))
    } else {
        match statement(s) {
            Err(e) => Err(e),
            Ok((first, rest)) => if rest.len() < s.len() {
                match block(rest, closing) {
                    Err(e) => Err(e),
                    Ok((others, end)) => Ok((seq![first] + others, end)),
                }
            } else {
                Err(SyntaxError::UnexpectedEndOfInput)
            },
        }
    }
}

/// A statement: a function definition, a conditional, a `use`, a loop, or an
/// expression standing alone.
pub open spec fn statement(s: Seq<TokenView>) -> Parsed
    decreases s.len(), 44nat,
{
    match front(s).kind {
        TokenType::Def => function_definition(s),
        TokenType::If => if_statement(s),
        TokenType::Use => use_statement(s),
        TokenType::While => while_loop(s),
        _ => expression(s, Level::Equality),
    }
}

/// `def name(parameters) -> type`, a block and `enddef`.
pub open spec fn function_definition(s: Seq<TokenView>) -> Parsed
    decreases s.len(), 43nat,
{
    match function_header(s) {
        Err(e) => Err(e),
        Ok((name, s1)) => match param_list(s1) {
            Err(e) => Err(e),
            Ok((params, s2)) => match function_return(s2) {
                Err(e) => Err(e),
                Ok((return_type, s3)) => if s3.len() < s.len() {
                    match block(s3, TokenType::EndDef) {
                        Err(e) => Err(e),
                        Ok((body, s4)) => match consume(s4, TokenType::EndDef) {
                            Err(e) => Err(e),
                            Ok(s5) => Ok(
                                (
                                    AstView::FunctionDefinition { name, return_type, params, body },
                                    s5,
                                ),
                            ),
                        },
                    }
                } else {
                    Err(SyntaxError::UnexpectedEndOfInput)
                },
            },
        },
    }
}

/// `if`, a condition, `then`, a block and `endif`.
pub open spec fn if_statement(s: Seq<TokenView>) -> Parsed
    decreases s.len(), 43nat,
{
    match consume(s, TokenType::If) {
        Err(e) => Err(e),
        Ok(s1) => match expression(s1, Level::Equality) {
            Err(e) => Err(e),
            Ok((condition, s2)) => match consume(s2, TokenType::Then) {
                Err(e) => Err(e),
                Ok(s3) => if s3.len() < s.len() {
                    match block(s3, TokenType::EndIf) {
                        Err(e) => Err(e),
                        Ok((body, s4)) => match consume(s4, TokenType::EndIf) {
                            Err(e) => Err(e),
                            Ok(s5) => Ok(
                                (AstView::IfStatement { condition: Box::new(condition), body }, s5),
                            ),
                        },
                    }
                } else {
                    Err(SyntaxError::UnexpectedEndOfInput)
                },
            },
        },
    }
}

/// `while`, a condition, `do`, a block and `done`.
pub open spec fn while_loop(s: Seq<TokenView>) -> Parsed
    decreases s.len(), 43nat,
{
    match consume(s, TokenType::While) {
        Err(e) => Err(e),
        Ok(s1) => match expression(s1, Level::Equality) {
            Err(e) => Err(e),
            Ok((condition, s2)) => match consume(s2, TokenType::Do) {
                Err(e) => Err(e),
                Ok(s3) => if s3.len() < s.len() {
                    match block(s3, TokenType::Done) {
                        Err(e) => Err(e),
                        Ok((body, s4)) => match consume(s4, TokenType::Done) {
                            Err(e) => Err(e),
                            Ok(s5) => Ok(
                                (AstView::WhileLoop { condition: Box::new(condition), body }, s5),
                            ),
                        },
                    }
                } else {
                    Err(SyntaxError::UnexpectedEndOfInput)
                },
            },
        },
    }
}

/// The operand of an operator of the given level: an expression of the next
/// tighter level, and below the tightest a unary expression.
pub open spec fn operand(s: Seq<TokenView>, level: Level) -> Parsed
    decreases s.len(), (level.rank() - 1) as nat,
{
    match level {
        Level::Equality => expression(s, Level::Arithmetic),
        Level::Arithmetic => expression(s, Level::Term),
        Level::Term => expression(s, Level::Exponent),
        Level::Exponent => unary(s),
    }
}

/// An expression of the given level: an operand, and then as many operators
/// of that level, each with its right operand, as follow. The operators
/// group to the left.
pub open spec fn expression(s: Seq<TokenView>, level: Level) -> Parsed
    decreases s.len(), level.rank(),
{
    match operand(s, level) {
        Err(e) => Err(e),
        Ok((left, rest)) => if rest.len() < s.len() {
            chain(left, rest, level)
        } else {
            Err(SyntaxError::UnexpectedEndOfInput)
        },
    }
}

/// What follows the left operand `left` at the given level: while the next
/// token is an operator of that level, it is taken with its right operand,
/// and the two operands become the left operand of what follows.
pub open spec fn chain(left: AstView, s: Seq<TokenView>, level: Level) -> Parsed
    decreases s.len(), 40nat,
{
    if !at_end(s) && front(s).kind.precedence() == level.precedence() {
        match operand(advance(s), level) {
            Err(e) => Err(e),
            Ok((right, rest)) => match BinaryOperator::of_kind(front(s).kind) {
                None => Err(SyntaxError::UnrecognizedToken { found: front(s).kind }),
                Some(operator) => if rest.len() < s.len() {
                    chain(
                        AstView::BinaryOperation {
                            operator,
                            left: Box::new(left),
                            right: Box::new(right),
                        },
                        rest,
                        level,
                    )
                } else {
                    Err(SyntaxError::UnexpectedEndOfInput)
                },
            },
        }
    } else {
        Ok((left, s))
    }
}

/// A unary expression: a literal, `true` or `false`, `return` with its value,
/// an identifier with what belongs to it, an expression in parentheses, or a
/// negation or a logical not of a unary expression.
pub open spec fn unary(s: Seq<TokenView>) -> Parsed
    decreases s.len(), 18nat,
{
    if at_end(s) {
        Err(SyntaxError::MissingOperand)
    } else {
        match front(s).kind {
            TokenType::Integer | TokenType::Float | TokenType::String => literal(s),
            TokenType::True => Ok((AstView::BooleanLiteral(true), advance(s))),
            TokenType::False => Ok((AstView::BooleanLiteral(false), advance(s))),
            TokenType::Return => if at_end(advance(s)) {
                Err(SyntaxError::MissingOperand)
            } else {
                match expression(advance(s), Level::Equality) {
                    Err(e) => Err(e),
                    Ok((value, rest)) => Ok(
                        (AstView::ReturnStatement { value: Box::new(value) }, rest),
                    ),
                }
            },
            TokenType::Identifier => identifier(s),
            TokenType::LeftParen => parentheses(s),
            TokenType::Minus => negation(s, UnaryOperator::Minus),
            TokenType::Bang => negation(s, UnaryOperator::LogicalNot),
            other => Err(SyntaxError::UnrecognizedToken { found: other }),
        }
    }
}

/// A unary operator, which is the next token, applied to the unary expression
/// that follows it.
pub open spec fn negation(s: Seq<TokenView>, operator: UnaryOperator) -> Parsed
    decreases s.len(), 17nat,
{
    if at_end(s) || at_end(advance(s)) {
        Err(SyntaxError::MissingOperand)
    } else {
        match unary(advance(s)) {
            Err(e) => Err(e),
            Ok((operand, rest)) => Ok(
                (AstView::UnaryOperation { operator, operand: Box::new(operand) }, rest),
            ),
        }
    }
}

/// An expression between parentheses. The tree is that of the expression.
pub open spec fn parentheses(s: Seq<TokenView>) -> Parsed
    decreases s.len(), 17nat,
{
    if at_end(s) {
        Err(SyntaxError::UnexpectedEndOfInput)
    } else {
        match expression(advance(s), Level::Equality) {
            Err(e) => Err(e),
            Ok((inner, rest)) => match consume(rest, TokenType::RightParen) {
                Err(e) => Err(e),
                Ok(end) => Ok((inner, end)),
            },
        }
    }
}

/// An identifier, which is the next token, with what belongs to it: the
/// member that is accessed where a dot follows, the arguments of a call where
/// an opening parenthesis follows.
pub open spec fn identifier(s: Seq<TokenView>) -> Parsed
    decreases s.len(), 17nat,
{
    let name = front(s).lexeme;
    let s1 = advance(s);
    if front(s1).kind == TokenType::Dot {
        member_access(AstView::Identifier(name), s1)
    } else if front(s1).kind == TokenType::LeftParen {
        match argument_list(advance(s1)) {
            Err(e) => Err(e),
            Ok((args, s2)) => match consume(s2, TokenType::RightParen) {
                Err(e) => Err(e),
                Ok(s3) => Ok((AstView::FunctionCall { function: name, args }, s3)),
            },
        }
    } else {
        Ok((AstView::Identifier(name), s1))
    }
}

/// A dot and the member of `parent` that is accessed, which is an identifier
/// with what belongs to it.
pub open spec fn member_access(parent: AstView, s: Seq<TokenView>) -> Parsed
    decreases s.len(), 16nat,
{
    match consume(s, TokenType::Dot) {
        Err(e) => Err(e),
        Ok(s1) => match expect(s1, TokenType::Identifier) {
            Err(e) => Err(e),
            Ok(()) => match identifier(s1) {
                Err(e) => Err(e),
                Ok((child, rest)) => Ok(
                    (
                        AstView::MemberAccess { parent: Box::new(parent), child: Box::new(child) },
                        rest,
                    ),
                ),
            },
        },
    }
}

/// The arguments of a call: none where the closing parenthesis comes next,
/// else expressions with commas between them.
pub open spec fn argument_list(s: Seq<TokenView>) -> ParsedList
    decreases s.len(), 44nat,
{
    if !at_end(s) && front(s).kind == TokenType::RightParen {
        Ok((Seq::empty(), s))
    } else {
        match expression(s, Level::Equality) {
            Err(e) => Err(e),
            Ok((first, rest)) => if rest.len() < s.len() {
                more_arguments(seq![first], rest)
            } else {
                Err(SyntaxError::UnexpectedEndOfInput)
            },
        }
    }
}

/// The arguments that follow `found`: while a comma comes next, it is taken
/// with the expression after it.
pub open spec fn more_arguments(found: Seq<AstView>, s: Seq<TokenView>) -> ParsedList
    decreases s.len(), 44nat,
{
    if !at_end(s) && front(s).kind == TokenType::Comma {
        match expression(advance(s), Level::Equality) {
            Err(e) => Err(e),
            Ok((next, rest)) => if rest.len() < s.len() {
                more_arguments(found.push(next), rest)
            } else {
                Err(SyntaxError::UnexpectedEndOfInput)
            },
        }
    } else {
        Ok((found, s))
    }
}

/// The parameters of a function: none where the closing parenthesis comes
/// next, else unary expressions with commas between them, each one after a
/// comma beginning with an identifier.
pub open spec fn param_list(s: Seq<TokenView>) -> ParsedList
    decreases s.len(), 44nat,
{
    if !at_end(s) && front(s).kind == TokenType::RightParen {
        Ok((Seq::empty(), s))
    } else {
        match unary(s) {
            Err(e) => Err(e),
            Ok((first, rest)) => if rest.len() < s.len() {
                more_params(seq![first], rest)
            } else {
                Err(SyntaxError::UnexpectedEndOfInput)
            },
        }
    }
}

/// The parameters that follow `found`: while a comma comes next, it is taken
/// with the parameter after it.
pub open spec fn more_params(found: Seq<AstView>, s: Seq<TokenView>) -> ParsedList
    decreases s.len(), 44nat,
{
    if !at_end(s) && front(s).kind == TokenType::Comma {
        let s1 = advance(s);
        if !at_end(s1) && front(s1).kind != TokenType::Identifier {
            Err(
                SyntaxError::UnexpectedToken {
                    expected: TokenType::Identifier,
                    found: front(s1).kind,
                },
            )
        } else {
            match unary(s1) {
                Err(e) => Err(e),
                Ok((next, rest)) => if rest.len() < s.len() {
                    more_params(found.push(next), rest)
                } else {
                    Err(SyntaxError::UnexpectedEndOfInput)
                },
            }
        }
    } else {
        Ok((found, s))
    }
}

/// The header of a function without a name: parameters between parentheses,
/// and `->`. The tree has no body.
pub open spec fn lambda(s: Seq<TokenView>) -> Parsed {
    match consume(s, TokenType::LeftParen) {
        Err(e) => Err(e),
        Ok(s1) => match param_list(s1) {
            Err(e) => Err(e),
            Ok((params, s2)) => match consume(s2, TokenType::RightParen) {
                Err(e) => Err(e),
                Ok(s3) => match consume(s3, TokenType::RightArrow) {
                    Err(e) => Err(e),
                    Ok(s4) => Ok((AstView::LambdaFunction { params, body: Seq::empty() }, s4)),
                },
            },
        },
    }
}

/// A statement that is parsed takes at least one token.
pub proof fn lemma_statement_shortens(s: Seq<TokenView>)
    ensures
        statement(s) matches Ok((_, rest)) ==> rest.len() < s.len(),
    decreases s.len(), 44nat,
{
    match front(s).kind {
        TokenType::Def => lemma_function_definition_shortens(s),
        TokenType::If => lemma_if_statement_shortens(s),
        TokenType::Use => {},
        TokenType::While => lemma_while_loop_shortens(s),
        _ => lemma_expression_shortens(s, Level::Equality),
    }
}

/// The statements of a program leave no more tokens than there were.
pub proof fn lemma_program_shortens(s: Seq<TokenView>)
    ensures
        program(s) matches Ok((_, rest)) ==> rest.len() <= s.len() && at_end(rest),
    decreases s.len(), 46nat,
{
    if !at_end(s) {
        lemma_statement_shortens(s);
        if let Ok((first, rest)) = statement(s) {
            lemma_program_shortens(rest);
        }
    }
}

/// The statements of a block leave no more tokens than there were.
pub proof fn lemma_block_shortens(s: Seq<TokenView>, closing: TokenType)
    ensures
        block(s, closing) matches Ok((_, rest)) ==> rest.len() <= s.len(),
    decreases s.len(), 45nat,
{
    if !(at_end(s) || front(s).kind == closing) {
        lemma_statement_shortens(s);
        if let Ok((first, rest)) = statement(s) {
            lemma_block_shortens(rest, closing);
        }
    }
}

/// A function definition that is parsed takes at least one token.
pub proof fn lemma_function_definition_shortens(s: Seq<TokenView>)
    ensures
        function_definition(s) matches Ok((_, rest)) ==> rest.len() < s.len(),
    decreases s.len(), 43nat,
{
    if let Ok((name, s1)) = function_header(s) {
        lemma_param_list_shortens(s1);
        if let Ok((params, s2)) = param_list(s1) {
            if let Ok((return_type, s3)) = function_return(s2) {
                lemma_block_shortens(s3, TokenType::EndDef);
            }
        }
    }
}

/// A conditional that is parsed takes at least one token.
pub proof fn lemma_if_statement_shortens(s: Seq<TokenView>)
    ensures
        if_statement(s) matches Ok((_, rest)) ==> rest.len() < s.len(),
    decreases s.len(), 43nat,
{
    if let Ok(s1) = consume(s, TokenType::If) {
        lemma_expression_shortens(s1, Level::Equality);
        if let Ok((condition, s2)) = expression(s1, Level::Equality) {
            if let Ok(s3) = consume(s2, TokenType::Then) {
                lemma_block_shortens(s3, TokenType::EndIf);
            }
        }
    }
}

/// A loop that is parsed takes at least one token.
pub proof fn lemma_while_loop_shortens(s: Seq<TokenView>)
    ensures
        while_loop(s) matches Ok((_, rest)) ==> rest.len() < s.len(),
    decreases s.len(), 43nat,
{
    if let Ok(s1) = consume(s, TokenType::While) {
        lemma_expression_shortens(s1, Level::Equality);
        if let Ok((condition, s2)) = expression(s1, Level::Equality) {
            if let Ok(s3) = consume(s2, TokenType::Do) {
                lemma_block_shortens(s3, TokenType::Done);
            }
        }
    }
}

/// An operand that is parsed takes at least one token.
pub proof fn lemma_operand_shortens(s: Seq<TokenView>, level: Level)
    ensures
        operand(s, level) matches Ok((_, rest)) ==> rest.len() < s.len(),
    decreases s.len(), (level.rank() - 1) as nat,
{
    match level {
        Level::Equality => lemma_expression_shortens(s, Level::Arithmetic),
        Level::Arithmetic => lemma_expression_shortens(s, Level::Term),
        Level::Term => lemma_expression_shortens(s, Level::Exponent),
        Level::Exponent => lemma_unary_shortens(s),
    }
}

/// An expression that is parsed takes at least one token.
pub proof fn lemma_expression_shortens(s: Seq<TokenView>, level: Level)
    ensures
        expression(s, level) matches Ok((_, rest)) ==> rest.len() < s.len(),
    decreases s.len(), level.rank(),
{
    lemma_operand_shortens(s, level);
    if let Ok((left, rest)) = operand(s, level) {
        lemma_chain_shortens(left, rest, level);
    }
}

/// The operators and operands that follow a left operand leave no more
/// tokens than there were.
pub proof fn lemma_chain_shortens(left: AstView, s: Seq<TokenView>, level: Level)
    ensures
        chain(left, s, level) matches Ok((_, rest)) ==> rest.len() <= s.len(),
    decreases s.len(), 40nat,
{
    if !at_end(s) && front(s).kind.precedence() == level.precedence() {
        lemma_operand_shortens(advance(s), level);
        if let Ok((right, rest)) = operand(advance(s), level) {
            if let Some(operator) = BinaryOperator::of_kind(front(s).kind) {
                lemma_chain_shortens(
                    AstView::BinaryOperation {
                        operator,
                        left: Box::new(left),
                        right: Box::new(right),
                    },
                    rest,
                    level,
                );
            }
        }
    }
}

/// A unary expression that is parsed takes at least one token.
pub proof fn lemma_unary_shortens(s: Seq<TokenView>)
    ensures
        unary(s) matches Ok((_, rest)) ==> rest.len() < s.len(),
    decreases s.len(), 18nat,
{
    if !at_end(s) {
        match front(s).kind {
            TokenType::Return => {
                if !at_end(advance(s)) {
                    lemma_expression_shortens(advance(s), Level::Equality);
                }
            },
            TokenType::Identifier => lemma_identifier_shortens(s),
            TokenType::LeftParen => lemma_parentheses_shortens(s),
            TokenType::Minus => lemma_negation_shortens(s, UnaryOperator::Minus),
            TokenType::Bang => lemma_negation_shortens(s, UnaryOperator::LogicalNot),
            _ => {},
        }
    }
}

/// A unary operator with its operand takes at least one token.
pub proof fn lemma_negation_shortens(s: Seq<TokenView>, operator: UnaryOperator)
    ensures
        negation(s, operator) matches Ok((_, rest)) ==> rest.len() < s.len(),
    decreases s.len(), 17nat,
{
    if !(at_end(s) || at_end(advance(s))) {
        lemma_unary_shortens(advance(s));
    }
}

/// An expression between parentheses takes at least one token.
pub proof fn lemma_parentheses_shortens(s: Seq<TokenView>)
    ensures
        parentheses(s) matches Ok((_, rest)) ==> rest.len() < s.len(),
    decreases s.len(), 17nat,
{
    if !at_end(s) {
        lemma_expression_shortens(advance(s), Level::Equality);
    }
}

/// An identifier with what belongs to it takes at least one token, unless the
/// stream is at its end.
pub proof fn lemma_identifier_shortens(s: Seq<TokenView>)
    ensures
        identifier(s) matches Ok((_, rest)) ==> rest.len() <= s.len() && (!at_end(s)
            ==> rest.len() < s.len()),
    decreases s.len(), 17nat,
{
    let s1 = advance(s);
    if front(s1).kind == TokenType::Dot {
        lemma_member_access_shortens(AstView::Identifier(front(s).lexeme), s1);
    } else if front(s1).kind == TokenType::LeftParen {
        lemma_argument_list_shortens(advance(s1));
    }
}

/// A member access takes at least one token.
pub proof fn lemma_member_access_shortens(parent: AstView, s: Seq<TokenView>)
    ensures
        member_access(parent, s) matches Ok((_, rest)) ==> rest.len() < s.len(),
    decreases s.len(), 16nat,
{
    if let Ok(s1) = consume(s, TokenType::Dot) {
        if expect(s1, TokenType::Identifier) is Ok {
            lemma_identifier_shortens(s1);
        }
    }
}

/// The arguments of a call leave no more tokens than there were.
pub proof fn lemma_argument_list_shortens(s: Seq<TokenView>)
    ensures
        argument_list(s) matches Ok((_, rest)) ==> rest.len() <= s.len(),
    decreases s.len(), 44nat,
{
    if !(!at_end(s) && front(s).kind == TokenType::RightParen) {
        lemma_expression_shortens(s, Level::Equality);
        if let Ok((first, rest)) = expression(s, Level::Equality) {
            lemma_more_arguments_shortens(seq![first], rest);
        }
    }
}

/// The arguments after the first leave no more tokens than there were.
pub proof fn lemma_more_arguments_shortens(found: Seq<AstView>, s: Seq<TokenView>)
    ensures
        more_arguments(found, s) matches Ok((_, rest)) ==> rest.len() <= s.len(),
    decreases s.len(), 44nat,
{
    if !at_end(s) && front(s).kind == TokenType::Comma {
        lemma_expression_shortens(advance(s), Level::Equality);
        if let Ok((next, rest)) = expression(advance(s), Level::Equality) {
            lemma_more_arguments_shortens(found.push(next), rest);
        }
    }
}

/// The parameters of a function leave no more tokens than there were.
pub proof fn lemma_param_list_shortens(s: Seq<TokenView>)
    ensures
        param_list(s) matches Ok((_, rest)) ==> rest.len() <= s.len(),
    decreases s.len(), 44nat,
{
    if !(!at_end(s) && front(s).kind == TokenType::RightParen) {
        lemma_unary_shortens(s);
        if let Ok((first, rest)) = unary(s) {
            lemma_more_params_shortens(seq![first], rest);
        }
    }
}

/// The parameters after the first leave no more tokens than there were.
pub proof fn lemma_more_params_shortens(found: Seq<AstView>, s: Seq<TokenView>)
    ensures
        more_params(found, s) matches Ok((_, rest)) ==> rest.len() <= s.len(),
    decreases s.len(), 44nat,
{
    if !at_end(s) && front(s).kind == TokenType::Comma {
        let s1 = advance(s);
        if !(!at_end(s1) && front(s1).kind != TokenType::Identifier) {
            lemma_unary_shortens(s1);
            if let Ok((next, rest)) = unary(s1) {
                lemma_more_params_shortens(found.push(next), rest);
            }
        }
    }
}

} // verus!
