//! What holds of the grammar on whole classes of token streams: how operators
//! of different levels nest, and how operators of one level group.

use crate::lexer::{advance, at_end, eof_token, front, TokenType, TokenView};
use crate::parser::ast::{AstView, BinaryOperator};
use crate::parser::grammar::{
    chain, expression, identifier, lemma_expression_shortens, literal, operand, program,
    statement, unary, Level,
};
use crate::parser::SyntaxError;
use vstd::prelude::*;

verus! {

/// The tree of a name.
pub open spec fn name(token: TokenView) -> AstView {
    AstView::Identifier(token.lexeme)
}

/// The tree of an operator, given by its token, applied to two trees.
pub open spec fn apply(operator: TokenView, left: AstView, right: AstView) -> AstView {
    AstView::BinaryOperation {
        operator: BinaryOperator::of_kind(operator.kind)->0,
        left: Box::new(left),
        right: Box::new(right),
    }
}

/// A stream that holds nothing, or only the end-of-stream token, is a program
/// without statements.
pub proof fn law_empty_program()
    ensures
        program(Seq::empty()) == Ok::<(Seq<AstView>, Seq<TokenView>), SyntaxError>(
            (Seq::empty(), Seq::empty()),
        ),
        program(seq![eof_token()]) == Ok::<(Seq<AstView>, Seq<TokenView>), SyntaxError>(
            (Seq::empty(), seq![eof_token()]),
        ),
{
}

/// A unary expression of one token, after which no operator comes that binds
/// tighter than those of `level`, is by itself an operand of `level`.
pub proof fn lemma_atom_operand(s: Seq<TokenView>, level: Level, tree: AstView)
    requires
        !at_end(s),
        unary(s) == Ok::<(AstView, Seq<TokenView>), SyntaxError>((tree, advance(s))),
        front(advance(s)).kind.precedence() <= level.precedence(),
    ensures
        operand(s, level) == Ok::<(AstView, Seq<TokenView>), SyntaxError>((tree, advance(s))),
    decreases level.rank(),
{
    match level {
        Level::Exponent => {},
        Level::Term => {
            lemma_atom_operand(s, Level::Exponent, tree);
            assert(expression(s, Level::Exponent) == chain(tree, advance(s), Level::Exponent));
        },
        Level::Arithmetic => {
            lemma_atom_operand(s, Level::Term, tree);
            assert(expression(s, Level::Term) == chain(tree, advance(s), Level::Term));
        },
        Level::Equality => {
            lemma_atom_operand(s, Level::Arithmetic, tree);
            assert(expression(s, Level::Arithmetic) == chain(tree, advance(s), Level::Arithmetic));
        },
    }
}

/// A name after which neither a dot nor an opening parenthesis comes, nor an
/// operator that binds tighter than those of `level`, is by itself an operand
/// of `level`.
pub proof fn lemma_name_operand(s: Seq<TokenView>, level: Level)
    requires
        front(s).kind == TokenType::Identifier,
        front(advance(s)).kind != TokenType::Dot,
        front(advance(s)).kind != TokenType::LeftParen,
        front(advance(s)).kind.precedence() <= level.precedence(),
    ensures
        operand(s, level) == Ok::<(AstView, Seq<TokenView>), SyntaxError>(
            (name(front(s)), advance(s)),
        ),
{
    assert(identifier(s) == Ok::<(AstView, Seq<TokenView>), SyntaxError>(
        (name(front(s)), advance(s)),
    ));
    assert(unary(s) == identifier(s));
    lemma_atom_operand(s, level, name(front(s)));
}

/// An expression of a level is also an expression of each looser level after
/// which no operator of the levels in between comes.
pub proof fn lemma_looser_level(
    s: Seq<TokenView>,
    inner: Level,
    outer: Level,
    tree: AstView,
    rest: Seq<TokenView>,
)
    requires
        expression(s, inner) == Ok::<(AstView, Seq<TokenView>), SyntaxError>((tree, rest)),
        outer.precedence() <= inner.precedence(),
        !(outer.precedence() <= front(rest).kind.precedence() < inner.precedence()),
    ensures
        expression(s, outer) == Ok::<(AstView, Seq<TokenView>), SyntaxError>((tree, rest)),
    decreases inner.precedence(),
{
    lemma_expression_shortens(s, inner);
    if outer != inner {
        let middle = match inner {
            Level::Exponent => Level::Term,
            Level::Term => Level::Arithmetic,
            _ => Level::Equality,
        };
        assert(operand(s, middle) == expression(s, inner));
        assert(expression(s, middle) == chain(tree, rest, middle));
        assert(chain(tree, rest, middle) == Ok::<(AstView, Seq<TokenView>), SyntaxError>(
            (tree, rest),
        ));
        lemma_looser_level(s, middle, outer, tree, rest);
    }
}

/// Two names with an operator of `level` between them, after which the stream
/// ends or an operator of another level comes, are one expression of `level`.
pub proof fn lemma_one_operator(s: Seq<TokenView>, level: Level)
    requires
        s.len() >= 3,
        s[0].kind == TokenType::Identifier,
        s[1].kind.precedence() == level.precedence(),
        s[2].kind == TokenType::Identifier,
        front(s.subrange(3, s.len() as int)).kind != TokenType::Dot,
        front(s.subrange(3, s.len() as int)).kind != TokenType::LeftParen,
        front(s.subrange(3, s.len() as int)).kind.precedence() < level.precedence(),
    ensures
        expression(s, level) == Ok::<(AstView, Seq<TokenView>), SyntaxError>(
            (apply(s[1], name(s[0]), name(s[2])), s.subrange(3, s.len() as int)),
        ),
{
    let s1 = advance(s);
    let s2 = advance(s1);
    let s3 = advance(s2);
    assert(s1 =~= s.subrange(1, s.len() as int));
    assert(s2 =~= s.subrange(2, s.len() as int));
    assert(s3 =~= s.subrange(3, s.len() as int));
    lemma_name_operand(s, level);
    lemma_name_operand(s2, level);
    BinaryOperator::lemma_operator_kinds(s[1].kind);
    let tree = apply(s[1], name(s[0]), name(s[2]));
    assert(chain(tree, s3, level) == Ok::<(AstView, Seq<TokenView>), SyntaxError>((tree, s3)));
    assert(chain(name(s[0]), s1, level) == chain(tree, s3, level));
    assert(expression(s, level) == chain(name(s[0]), s1, level));
}

/// A stream that is one expression of the loosest level, and begins with no
/// word that opens a statement of another form, is a program of that one
/// statement.
pub proof fn lemma_single_statement(s: Seq<TokenView>, tree: AstView, rest: Seq<TokenView>)
    requires
        !at_end(s),
        front(s).kind != TokenType::Def,
        front(s).kind != TokenType::If,
        front(s).kind != TokenType::Use,
        front(s).kind != TokenType::While,
        expression(s, Level::Equality) == Ok::<(AstView, Seq<TokenView>), SyntaxError>(
            (tree, rest),
        ),
        at_end(rest),
    ensures
        program(s) == Ok::<(Seq<AstView>, Seq<TokenView>), SyntaxError>((seq![tree], rest)),
{
    lemma_expression_shortens(s, Level::Equality);
    assert(statement(s) == expression(s, Level::Equality));
    assert(program(rest) == Ok::<(Seq<AstView>, Seq<TokenView>), SyntaxError>(
        (Seq::empty(), rest),
    ));
    assert(seq![tree] + Seq::<AstView>::empty() =~= seq![tree]);
}

/// A stream of one literal token is a program of one statement, the literal.
pub proof fn law_single_literal(token: TokenView, tree: AstView)
    requires
        token.kind == TokenType::Integer || token.kind == TokenType::Float || token.kind
            == TokenType::String,
        literal(seq![token, eof_token()]) == Ok::<(AstView, Seq<TokenView>), SyntaxError>(
            (tree, seq![eof_token()]),
        ),
    ensures
        program(seq![token, eof_token()]) == Ok::<(Seq<AstView>, Seq<TokenView>), SyntaxError>(
            (seq![tree], seq![eof_token()]),
        ),
{
    let s = seq![token, eof_token()];
    let end = seq![eof_token()];
    assert(advance(s) =~= end);
    assert(unary(s) == literal(s));
    lemma_atom_operand(s, Level::Equality, tree);
    assert(chain(tree, end, Level::Equality) == Ok::<(AstView, Seq<TokenView>), SyntaxError>(
        (tree, end),
    ));
    assert(expression(s, Level::Equality) == chain(tree, end, Level::Equality));
    lemma_single_statement(s, tree, end);
}

/// Operators of one level group to the left: `a op b op c`, with both
/// operators of the same level, is `(a op b) op c`.
pub proof fn law_left_associative(
    a: TokenView,
    first: TokenView,
    b: TokenView,
    second: TokenView,
    c: TokenView,
    level: Level,
)
    requires
        a.kind == TokenType::Identifier,
        b.kind == TokenType::Identifier,
        c.kind == TokenType::Identifier,
        first.kind.precedence() == level.precedence(),
        second.kind.precedence() == level.precedence(),
    ensures
        program(seq![a, first, b, second, c, eof_token()]) == Ok::<
            (Seq<AstView>, Seq<TokenView>),
            SyntaxError,
        >((seq![apply(second, apply(first, name(a), name(b)), name(c))], seq![eof_token()])),
{
    let s = seq![a, first, b, second, c, eof_token()];
    let s1 = advance(s);
    let s2 = advance(s1);
    let s3 = advance(s2);
    let s4 = advance(s3);
    let s5 = advance(s4);
    assert(s1 =~= seq![first, b, second, c, eof_token()]);
    assert(s2 =~= seq![b, second, c, eof_token()]);
    assert(s3 =~= seq![second, c, eof_token()]);
    assert(s4 =~= seq![c, eof_token()]);
    assert(s5 =~= seq![eof_token()]);
    lemma_name_operand(s, level);
    lemma_name_operand(s2, level);
    lemma_name_operand(s4, level);
    BinaryOperator::lemma_operator_kinds(first.kind);
    BinaryOperator::lemma_operator_kinds(second.kind);
    let inner = apply(first, name(a), name(b));
    let tree = apply(second, inner, name(c));
    assert(chain(tree, s5, level) == Ok::<(AstView, Seq<TokenView>), SyntaxError>((tree, s5)));
    assert(chain(inner, s3, level) == chain(tree, s5, level));
    assert(chain(name(a), s1, level) == chain(inner, s3, level));
    assert(expression(s, level) == chain(name(a), s1, level));
    lemma_looser_level(s, level, Level::Equality, tree, s5);
    lemma_single_statement(s, tree, s5);
}

/// An operator of a tighter level takes its operands first: with `low` of a
/// looser level than `high`, `a low b high c` is `a low (b high c)`, and
/// `a high b low c` is `(a high b) low c`.
pub proof fn law_precedence(
    a: TokenView,
    b: TokenView,
    c: TokenView,
    low: TokenView,
    high: TokenView,
    loose: Level,
    tight: Level,
)
    requires
        a.kind == TokenType::Identifier,
        b.kind == TokenType::Identifier,
        c.kind == TokenType::Identifier,
        loose.precedence() < tight.precedence(),
        low.kind.precedence() == loose.precedence(),
        high.kind.precedence() == tight.precedence(),
    ensures
        program(seq![a, low, b, high, c, eof_token()]) == Ok::<
            (Seq<AstView>, Seq<TokenView>),
            SyntaxError,
        >((seq![apply(low, name(a), apply(high, name(b), name(c)))], seq![eof_token()])),
        program(seq![a, high, b, low, c, eof_token()]) == Ok::<
            (Seq<AstView>, Seq<TokenView>),
            SyntaxError,
        >((seq![apply(low, apply(high, name(a), name(b)), name(c))], seq![eof_token()])),
{
    BinaryOperator::lemma_operator_kinds(low.kind);
    BinaryOperator::lemma_operator_kinds(high.kind);
    let next = match loose {
        Level::Equality => Level::Arithmetic,
        Level::Arithmetic => Level::Term,
        _ => Level::Exponent,
    };
    let end = seq![eof_token()];
    {
        let s = seq![a, low, b, high, c, eof_token()];
        let s1 = advance(s);
        let s2 = advance(s1);
        assert(s1 =~= seq![low, b, high, c, eof_token()]);
        assert(s2 =~= seq![b, high, c, eof_token()]);
        assert(s2.subrange(3, 4) =~= end);
        lemma_name_operand(s, loose);
        lemma_one_operator(s2, tight);
        let right = apply(high, name(b), name(c));
        lemma_looser_level(s2, tight, next, right, end);
        assert(operand(s2, loose) == expression(s2, next));
        let tree = apply(low, name(a), right);
        assert(chain(tree, end, loose) == Ok::<(AstView, Seq<TokenView>), SyntaxError>(
            (tree, end),
        ));
        assert(chain(name(a), s1, loose) == chain(tree, end, loose));
        assert(expression(s, loose) == chain(name(a), s1, loose));
        lemma_looser_level(s, loose, Level::Equality, tree, end);
        lemma_single_statement(s, tree, end);
    }
    {
        let s = seq![a, high, b, low, c, eof_token()];
        let s3 = s.subrange(3, 6);
        let s4 = advance(s3);
        assert(s3 =~= seq![low, c, eof_token()]);
        assert(s4 =~= seq![c, eof_token()]);
        assert(advance(s4) =~= end);
        lemma_one_operator(s, tight);
        let left = apply(high, name(a), name(b));
        lemma_looser_level(s, tight, next, left, s3);
        assert(operand(s, loose) == expression(s, next));
        lemma_expression_shortens(s, next);
        lemma_name_operand(s4, loose);
        let tree = apply(low, left, name(c));
        assert(chain(tree, end, loose) == Ok::<(AstView, Seq<TokenView>), SyntaxError>(
            (tree, end),
        ));
        assert(chain(left, s3, loose) == chain(tree, end, loose));
        assert(expression(s, loose) == chain(left, s3, loose));
        lemma_looser_level(s, loose, Level::Equality, tree, end);
        lemma_single_statement(s, tree, end);
    }
}

} // verus!
