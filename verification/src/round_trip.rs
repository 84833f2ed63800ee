//! Expressions that come back: the trees whose Python text, scanned and
//! parsed again, gives the same tree.
//!
//! These are the plain expressions: names, integer and string literals,
//! negations, and operations with one of the twelve operators that are
//! spelled alike in both languages, nested as their precedence asks.
//! [`law_plain_expression_comes_back`] states it. The proof has two halves:
//! the tokens of a plain expression are parsed as the expression, and the
//! text of a plain expression is scanned as its tokens.
//!
//! Conditionals, loops and function definitions do not come back, since their
//! text is Python: [`blocks`] states that.

pub mod blocks;

use crate::laws::reparsed;
use crate::lexer::laws::{is_word, lemma_letter_begins_word};
use crate::lexer::rules::{
    digits_end, digraph_kind, keyword_table, lemma_digits_end, lemma_quote_from, lemma_word_end,
    lookup, prepend, quote_from, scan_at, scan_number, scan_string, scan_word, tokens_from,
    word_end, word_kind, Scan,
};
use crate::lexer::{advance, eof_token, front, LexError, TokenType, TokenView, ValueView};
use crate::parser::ast::{AstView, BinaryOperator, UnaryOperator};
use crate::parser::grammar::{
    chain, expression, identifier, lemma_operand_shortens, literal, negation, operand, program,
    unary, Level,
};
use crate::parser::laws::lemma_single_statement;
use crate::parser::SyntaxError;
use crate::text::{
    decimal_digits, decimal_i64, is_digit, lemma_decimal_round_trip, letter, letter_or_number,
};
use crate::transpiler::rendering::{binary_operator_text, render};
use vstd::prelude::*;

verus! {

/// The kind of token that an operator is written with, for the operators
/// that are spelled alike in both languages and that the grammar knows.
pub open spec fn operator_kind(operator: BinaryOperator) -> Option<TokenType> {
    match operator {
        BinaryOperator::Plus => Some(TokenType::Plus),
        BinaryOperator::Minus => Some(TokenType::Minus),
        BinaryOperator::Asterisk => Some(TokenType::Asterisk),
        BinaryOperator::Slash => Some(TokenType::Slash),
        BinaryOperator::Modulus => Some(TokenType::Modulus),
        BinaryOperator::Exponent => Some(TokenType::AsteriskAsterisk),
        BinaryOperator::EqualEqual => Some(TokenType::EqualEqual),
        BinaryOperator::BangEqual => Some(TokenType::BangEqual),
        BinaryOperator::Less => Some(TokenType::Less),
        BinaryOperator::Greater => Some(TokenType::Greater),
        BinaryOperator::LessEqual => Some(TokenType::LessEqual),
        BinaryOperator::GreaterEqual => Some(TokenType::GreaterEqual),
        _ => None,
    }
}

/// How tightly the top of a tree binds: the precedence of its operator where
/// it is an operation with two operands, and 6 otherwise.
pub open spec fn binds(tree: AstView) -> int {
    match tree {
        AstView::BinaryOperation { operator, .. } => match operator_kind(operator) {
            Some(kind) => kind.precedence(),
            None => 6,
        },
        _ => 6,
    }
}

/// A plain expression.
pub open spec fn plain(tree: AstView) -> bool
    decreases tree,
{
    match tree {
        AstView::Identifier(name) => is_word(name) && lookup(keyword_table(), name) is None,
        AstView::IntegerLiteral(v) => v >= 0,
        AstView::StringLiteral(body) => forall|i: int| 0 <= i < body.len() ==> body[i] != '"',
        AstView::UnaryOperation { operator, operand } => {
            &&& operator == UnaryOperator::Minus
            &&& plain(*operand)
            &&& binds(*operand) == 6
        },
        AstView::BinaryOperation { operator, left, right } => {
            &&& operator_kind(operator) is Some
            &&& plain(*left)
            &&& plain(*right)
            &&& binds(*left) >= operator_kind(operator)->0.precedence()
            &&& binds(*right) > operator_kind(operator)->0.precedence()
        },
        _ => false,
    }
}

/// The tokens that a plain expression is written with.
pub open spec fn source_tokens(tree: AstView) -> Seq<TokenView>
    decreases tree,
{
    match tree {
        AstView::Identifier(name) => seq![
            TokenView { kind: TokenType::Identifier, lexeme: name, value: None },
        ],
        AstView::IntegerLiteral(v) => seq![
            TokenView {
                kind: TokenType::Integer,
                lexeme: decimal_digits(v as nat),
                value: Some(ValueView::IntegerLiteral(v)),
            },
        ],
        AstView::StringLiteral(body) => seq![
            TokenView {
                kind: TokenType::String,
                lexeme: seq!['"'] + body + seq!['"'],
                value: Some(ValueView::StringLiteral(body)),
            },
        ],
        AstView::UnaryOperation { operand, .. } => seq![
            TokenView { kind: TokenType::Minus, lexeme: seq!['-'], value: None },
        ] + source_tokens(*operand),
        AstView::BinaryOperation { operator, left, right } => source_tokens(*left) + seq![
            TokenView {
                kind: operator_kind(operator)->0,
                lexeme: binary_operator_text(operator),
                value: None,
            },
        ] + source_tokens(*right),
        _ => Seq::empty(),
    }
}

/// What may follow an expression in a stream without becoming part of it at
/// `precedence` or tighter: no dot, no opening parenthesis, and no operator
/// that binds tighter than `precedence`.
pub open spec fn ends_before(rest: Seq<TokenView>, precedence: int) -> bool {
    &&& front(rest).kind != TokenType::Dot
    &&& front(rest).kind != TokenType::LeftParen
    &&& front(rest).kind.precedence() <= precedence
}

/// A plain expression is written with at least one token, and the first one
/// opens no statement of another form.
pub proof fn lemma_first_token(tree: AstView)
    requires
        plain(tree),
    ensures
        source_tokens(tree).len() > 0,
        source_tokens(tree)[0].kind == TokenType::Identifier || source_tokens(tree)[0].kind
            == TokenType::Integer || source_tokens(tree)[0].kind == TokenType::String
            || source_tokens(tree)[0].kind == TokenType::Minus,
    decreases tree,
{
    match tree {
        AstView::BinaryOperation { operator, left, right } => {
            lemma_first_token(*left);
        },
        _ => {},
    }
}

/// The tokens of a plain expression that binds tightest are parsed as a unary
/// expression, and give the expression back.
pub proof fn lemma_unary_comes_back(tree: AstView, rest: Seq<TokenView>)
    requires
        plain(tree),
        binds(tree) == 6,
        ends_before(rest, 5),
    ensures
        unary(source_tokens(tree) + rest) == Ok::<(AstView, Seq<TokenView>), SyntaxError>(
            (tree, rest),
        ),
    decreases tree, 0nat, 0nat,
{
    let s = source_tokens(tree) + rest;
    match tree {
        AstView::UnaryOperation { operator, operand } => {
            lemma_first_token(*operand);
            assert(advance(s) =~= source_tokens(*operand) + rest);
            lemma_unary_comes_back(*operand, rest);
            assert(unary(s) == negation(s, UnaryOperator::Minus));
        },
        AstView::Identifier(name) => {
            assert(advance(s) =~= rest);
            assert(unary(s) == identifier(s));
        },
        _ => {
            assert(advance(s) =~= rest);
            assert(unary(s) == literal(s));
        },
    }
}

/// The tokens of a plain expression that binds tighter than the operators of
/// a level are parsed as an operand of that level, and give the expression
/// back.
pub proof fn lemma_operand_comes_back(tree: AstView, rest: Seq<TokenView>, level: Level)
    requires
        plain(tree),
        binds(tree) > level.precedence(),
        ends_before(rest, level.precedence()),
    ensures
        operand(source_tokens(tree) + rest, level) == Ok::<(AstView, Seq<TokenView>), SyntaxError>(
            (tree, rest),
        ),
    decreases tree, 6 - level.precedence(), 0nat,
{
    let s = source_tokens(tree) + rest;
    match level {
        Level::Exponent => {
            lemma_unary_comes_back(tree, rest);
        },
        _ => {
            let tighter = match level {
                Level::Equality => Level::Arithmetic,
                Level::Arithmetic => Level::Term,
                _ => Level::Exponent,
            };
            lemma_chain_comes_back(tree, rest, tighter);
            assert(operand(s, level) == expression(s, tighter));
            assert(chain(tree, rest, tighter) == Ok::<(AstView, Seq<TokenView>), SyntaxError>(
                (tree, rest),
            ));
        },
    }
}

/// The tokens of a plain expression that binds at least as tightly as the
/// operators of a level are parsed, at that level, as the left operand of
/// what follows.
pub proof fn lemma_chain_comes_back(tree: AstView, rest: Seq<TokenView>, level: Level)
    requires
        plain(tree),
        binds(tree) >= level.precedence(),
        ends_before(rest, level.precedence()),
    ensures
        expression(source_tokens(tree) + rest, level) == chain(tree, rest, level),
    decreases tree, 6 - level.precedence(), 1nat,
{
    let s = source_tokens(tree) + rest;
    if binds(tree) > level.precedence() {
        lemma_operand_comes_back(tree, rest, level);
        lemma_operand_shortens(s, level);
    } else {
        match tree {
            AstView::BinaryOperation { operator, left, right } => {
                let kind = operator_kind(operator)->0;
                let token = TokenView {
                    kind,
                    lexeme: binary_operator_text(operator),
                    value: None,
                };
                let after_left = seq![token] + source_tokens(*right) + rest;
                let after_token = source_tokens(*right) + rest;
                assert(s =~= source_tokens(*left) + after_left);
                assert(advance(after_left) =~= after_token);
                lemma_chain_comes_back(*left, after_left, level);
                lemma_operand_comes_back(*right, rest, level);
                lemma_operand_shortens(after_token, level);
                assert(BinaryOperator::of_kind(kind) == Some(operator));
                assert(chain(*left, after_left, level) == chain(tree, rest, level));
            },
            _ => {},
        }
    }
}

/// The tokens of a plain expression, and then the end of the stream, are a
/// program of one statement, the expression.
pub proof fn law_plain_tokens_come_back(tree: AstView)
    requires
        plain(tree),
    ensures
        program(source_tokens(tree) + seq![eof_token()]) == Ok::<
            (Seq<AstView>, Seq<TokenView>),
            SyntaxError,
        >((seq![tree], seq![eof_token()])),
{
    let end = seq![eof_token()];
    let s = source_tokens(tree) + end;
    lemma_first_token(tree);
    lemma_chain_comes_back(tree, end, Level::Equality);
    assert(chain(tree, end, Level::Equality) == Ok::<(AstView, Seq<TokenView>), SyntaxError>(
        (tree, end),
    ));
    lemma_single_statement(s, tree, end);
}

/// Whether `text` stands in `src` at `pos`.
pub open spec fn occurs_at(src: Seq<char>, pos: int, text: Seq<char>) -> bool {
    &&& 0 <= pos
    &&& pos + text.len() <= src.len()
    &&& forall|i: int| 0 <= i < text.len() ==> src[pos + i] == #[trigger] text[i]
}

/// Whether the text ends at `pos`, or a space, a colon or an opening
/// parenthesis stands there.
pub open spec fn breaks_at(src: Seq<char>, pos: int) -> bool {
    pos == src.len() || (0 <= pos < src.len() && (src[pos] == ' ' || src[pos] == ':' || src[pos]
        == '('))
}

/// Where two texts stand one after the other, each of them stands where it
/// begins.
pub proof fn lemma_occurs_split(src: Seq<char>, pos: int, a: Seq<char>, b: Seq<char>)
    requires
        occurs_at(src, pos, a + b),
    ensures
        occurs_at(src, pos, a),
        occurs_at(src, pos + a.len(), b),
{
    assert forall|i: int| 0 <= i < a.len() implies src[pos + i] == #[trigger] a[i] by {
        assert((a + b)[i] == a[i]);
    }
    assert forall|i: int| 0 <= i < b.len() implies src[pos + a.len() + i] == #[trigger] b[i] by {
        assert((a + b)[a.len() + i] == b[i]);
    }
}

/// A text that stands in `src` is the part of `src` where it stands.
pub proof fn lemma_occurs_subrange(src: Seq<char>, pos: int, text: Seq<char>)
    requires
        occurs_at(src, pos, text),
    ensures
        src.subrange(pos, pos + text.len()) == text,
{
    assert(src.subrange(pos, pos + text.len()) =~= text);
}

/// Putting one list of tokens and then another before a result is putting
/// the two lists, joined, before it.
pub proof fn lemma_prepend_twice(
    a: Seq<TokenView>,
    b: Seq<TokenView>,
    rest: Result<Seq<TokenView>, LexError>,
)
    ensures
        prepend(a, prepend(b, rest)) == prepend(a + b, rest),
{
    if let Ok(tokens) = rest {
        assert(a + (b + tokens) =~= (a + b) + tokens);
    }
}

/// The text of a plain expression begins with a letter, a digit, a double
/// quote or a minus sign.
pub proof fn lemma_first_char(tree: AstView)
    requires
        plain(tree),
    ensures
        render(tree, 0) is Ok,
        render(tree, 0)->Ok_0.len() > 0,
        ({
            let c = render(tree, 0)->Ok_0[0];
            letter(c) || is_digit(c) || c == '"' || c == '-'
        }),
    decreases tree,
{
    match tree {
        AstView::Identifier(name) => {},
        AstView::IntegerLiteral(v) => {
            lemma_decimal_round_trip(v as nat);
        },
        AstView::StringLiteral(body) => {
            reveal_strlit("\"");
            assert(("\""@ + body + "\""@)[0] == '"');
        },
        AstView::UnaryOperation { operator, operand } => {
            lemma_first_char(*operand);
            reveal_strlit("-");
            assert(("-"@ + render(*operand, 0)->Ok_0)[0] == '-');
        },
        AstView::BinaryOperation { operator, left, right } => {
            lemma_first_char(*left);
            lemma_first_char(*right);
            let l = render(*left, 0)->Ok_0;
            let r = render(*right, 0)->Ok_0;
            assert((l + " "@ + binary_operator_text(operator) + " "@ + r)[0] == l[0]);
        },
        _ => {},
    }
}

/// An operator that stands in the text with a space after it is scanned as
/// one token, of the kind of the operator.
pub proof fn lemma_operator_scans(src: Seq<char>, pos: int, operator: BinaryOperator)
    requires
        operator_kind(operator) is Some,
        occurs_at(src, pos, binary_operator_text(operator)),
        pos + binary_operator_text(operator).len() < src.len(),
        src[pos + binary_operator_text(operator).len()] == ' ',
    ensures
        binary_operator_text(operator).len() > 0,
        scan_at(src, pos) == (Scan::Token {
            kind: operator_kind(operator)->0,
            value: None,
            end: pos + binary_operator_text(operator).len(),
        }),
{
    reveal_strlit("+");
    reveal_strlit("-");
    reveal_strlit("*");
    reveal_strlit("/");
    reveal_strlit("%");
    reveal_strlit("**");
    reveal_strlit("==");
    reveal_strlit("!=");
    reveal_strlit("<");
    reveal_strlit(">");
    reveal_strlit("<=");
    reveal_strlit(">=");
    let text = binary_operator_text(operator);
    assert(src[pos] == text[0]);
    if text.len() == 2 {
        assert(src[pos + 1] == text[1]);
    }
}

/// The token of a name.
pub open spec fn name_token(name: Seq<char>) -> TokenView {
    TokenView { kind: TokenType::Identifier, lexeme: name, value: None }
}

/// The token of an integer literal that is not negative.
pub open spec fn integer_token(v: i64) -> TokenView {
    TokenView {
        kind: TokenType::Integer,
        lexeme: decimal_digits(v as nat),
        value: Some(ValueView::IntegerLiteral(v)),
    }
}

/// The token of a string literal.
pub open spec fn string_token(body: Seq<char>) -> TokenView {
    TokenView {
        kind: TokenType::String,
        lexeme: seq!['"'] + body + seq!['"'],
        value: Some(ValueView::StringLiteral(body)),
    }
}

/// The token of a minus sign.
pub open spec fn minus_token() -> TokenView {
    TokenView { kind: TokenType::Minus, lexeme: seq!['-'], value: None }
}

/// The token of an operator.
pub open spec fn operator_token(operator: BinaryOperator) -> TokenView {
    TokenView {
        kind: operator_kind(operator)->0,
        lexeme: binary_operator_text(operator),
        value: None,
    }
}

/// A word that stands in a text and ends where the text breaks is scanned as
/// one token, of the kind of the word.
pub proof fn lemma_word_scans(word: Seq<char>, src: Seq<char>, pos: int, line: int, column: int)
    requires
        is_word(word),
        occurs_at(src, pos, word),
        breaks_at(src, pos + word.len()),
    ensures
        tokens_from(src, pos, line, column) == prepend(
            seq![TokenView { kind: word_kind(word), lexeme: word, value: None }],
            tokens_from(src, pos + word.len(), line, column + word.len()),
        ),
{
    let end = pos + word.len();
    lemma_occurs_subrange(src, pos, word);
    assert(src[pos + 0] == word[0]);
    lemma_letter_begins_word(src[pos]);
    lemma_word_end(src, pos + 1);
    assert forall|i: int| pos + 1 <= i < end implies letter_or_number(src[i]) by {
        assert(src[pos + (i - pos)] == word[i - pos]);
    }
    assert(word_end(src, pos + 1) == end);
    assert(scan_at(src, pos) == scan_word(src, pos));
}

/// A name that stands in a text and ends where the text breaks is scanned as
/// one identifier.
pub proof fn lemma_name_scans(name: Seq<char>, src: Seq<char>, pos: int, line: int, column: int)
    requires
        is_word(name),
        lookup(keyword_table(), name) is None,
        occurs_at(src, pos, name),
        breaks_at(src, pos + name.len()),
    ensures
        tokens_from(src, pos, line, column) == prepend(
            seq![name_token(name)],
            tokens_from(src, pos + name.len(), line, column + name.len()),
        ),
{
    lemma_word_scans(name, src, pos, line, column);
}

/// An integer literal that stands in a text and ends where the text breaks
/// is scanned as one integer.
pub proof fn lemma_integer_scans(v: i64, src: Seq<char>, pos: int, line: int, column: int)
    requires
        v >= 0,
        occurs_at(src, pos, decimal_digits(v as nat)),
        breaks_at(src, pos + decimal_digits(v as nat).len()),
    ensures
        tokens_from(src, pos, line, column) == prepend(
            seq![integer_token(v)],
            tokens_from(
                src,
                pos + decimal_digits(v as nat).len(),
                line,
                column + decimal_digits(v as nat).len(),
            ),
        ),
{
    let text = decimal_digits(v as nat);
    let end = pos + text.len();
    lemma_decimal_round_trip(v as nat);
    lemma_occurs_subrange(src, pos, text);
    lemma_digits_end(src, pos);
    assert forall|i: int| pos <= i < end implies is_digit(src[i]) by {
        assert(src[pos + (i - pos)] == text[i - pos]);
    }
    assert(digits_end(src, pos) == end);
    assert(forall|second: char| (#[trigger] digraph_kind(src[pos], second)) is None);
    assert(scan_at(src, pos) == scan_number(src, pos));
    assert(decimal_i64(text) == Some(v));
}

/// A string literal that stands in a text is scanned as one string.
pub proof fn lemma_string_scans(body: Seq<char>, src: Seq<char>, pos: int, line: int, column: int)
    requires
        forall|i: int| 0 <= i < body.len() ==> body[i] != '"',
        occurs_at(src, pos, seq!['"'] + body + seq!['"']),
    ensures
        tokens_from(src, pos, line, column) == prepend(
            seq![string_token(body)],
            tokens_from(src, pos + body.len() + 2, line, column + body.len() + 2),
        ),
{
    let text = seq!['"'] + body + seq!['"'];
    lemma_occurs_subrange(src, pos, text);
    lemma_occurs_split(src, pos, seq!['"'] + body, seq!['"']);
    lemma_occurs_split(src, pos, seq!['"'], body);
    lemma_quote_from(src, pos + 1);
    assert(src[pos + 0] == seq!['"'][0]);
    assert(src[pos + 1 + body.len() + 0] == seq!['"'][0]);
    assert forall|i: int| pos + 1 <= i < pos + 1 + body.len() implies src[i] != '"' by {
        assert(src[pos + 1 + (i - pos - 1)] == body[i - pos - 1]);
    }
    assert(quote_from(src, pos + 1) == pos + 1 + body.len());
    assert(src.subrange(pos + 1, pos + 1 + body.len()) =~= body);
    assert(forall|second: char| (#[trigger] digraph_kind('"', second)) is None);
    assert(scan_at(src, pos) == scan_string(src, pos));
}

/// A minus sign before a letter, a digit, a double quote or another minus
/// sign is scanned as one token.
pub proof fn lemma_minus_scans(src: Seq<char>, pos: int, line: int, column: int)
    requires
        0 <= pos,
        pos + 1 < src.len(),
        src[pos] == '-',
        letter(src[pos + 1]) || is_digit(src[pos + 1]) || src[pos + 1] == '"' || src[pos + 1]
            == '-',
    ensures
        tokens_from(src, pos, line, column) == prepend(
            seq![minus_token()],
            tokens_from(src, pos + 1, line, column + 1),
        ),
{
    assert(digraph_kind(src[pos], src[pos + 1]) is None);
    assert(scan_at(src, pos) == (Scan::Token {
        kind: TokenType::Minus,
        value: None,
        end: pos + 1,
    }));
    assert(src.subrange(pos, pos + 1) =~= seq!['-']);
}

/// An operator with a space on either side is scanned as one token, and the
/// spaces as none.
pub proof fn lemma_operator_between(
    operator: BinaryOperator,
    src: Seq<char>,
    pos: int,
    line: int,
    column: int,
)
    requires
        operator_kind(operator) is Some,
        0 <= pos < src.len(),
        src[pos] == ' ',
        occurs_at(src, pos + 1, binary_operator_text(operator)),
        pos + 1 + binary_operator_text(operator).len() < src.len(),
        src[pos + 1 + binary_operator_text(operator).len()] == ' ',
    ensures
        tokens_from(src, pos, line, column) == prepend(
            seq![operator_token(operator)],
            tokens_from(
                src,
                pos + binary_operator_text(operator).len() + 2,
                line,
                column + binary_operator_text(operator).len() + 2,
            ),
        ),
{
    let o = binary_operator_text(operator);
    let p2 = pos + 1;
    let p3 = p2 + o.len();
    lemma_operator_scans(src, p2, operator);
    lemma_occurs_subrange(src, p2, o);
    assert(tokens_from(src, pos, line, column) == tokens_from(src, p2, line, column + 1));
    assert(tokens_from(src, p3, line, column + 1 + o.len()) == tokens_from(
        src,
        p3 + 1,
        line,
        column + o.len() + 2,
    ));
    assert(tokens_from(src, p2, line, column + 1) == prepend(
        seq![operator_token(operator)],
        tokens_from(src, p3, line, column + 1 + o.len()),
    ));
}

/// Where the text of an operation stands, the texts of its operands and of
/// its operator stand in a row, with a space on either side of the operator.
pub proof fn lemma_operation_parts(
    l: Seq<char>,
    o: Seq<char>,
    r: Seq<char>,
    src: Seq<char>,
    pos: int,
)
    requires
        occurs_at(src, pos, l + " "@ + o + " "@ + r),
    ensures
        (l + " "@ + o + " "@ + r).len() == l.len() + o.len() + r.len() + 2,
        occurs_at(src, pos, l),
        src[pos + l.len()] == ' ',
        occurs_at(src, pos + l.len() + 1, o),
        src[pos + l.len() + 1 + o.len()] == ' ',
        occurs_at(src, pos + l.len() + o.len() + 2, r),
{
    reveal_strlit(" ");
    lemma_occurs_split(src, pos, l + " "@ + o + " "@, r);
    lemma_occurs_split(src, pos, l + " "@ + o, " "@);
    lemma_occurs_split(src, pos, l + " "@, o);
    lemma_occurs_split(src, pos, l, " "@);
    assert(src[pos + l.len() + 0] == " "@[0]);
    assert(src[pos + l.len() + 1 + o.len() + 0] == " "@[0]);
}

/// Where the text of a negation stands, a minus sign stands, and after it
/// the text of the operand.
pub proof fn lemma_negation_parts(inner: Seq<char>, src: Seq<char>, pos: int)
    requires
        occurs_at(src, pos, "-"@ + inner),
    ensures
        ("-"@ + inner).len() == inner.len() + 1,
        src[pos] == '-',
        occurs_at(src, pos + 1, inner),
{
    reveal_strlit("-");
    lemma_occurs_split(src, pos, "-"@, inner);
    assert(src[pos + 0] == "-"@[0]);
}

/// Whether the text of a tree stands in `src` at `pos` and ends where `src`
/// breaks.
#[verifier::opaque]
pub open spec fn stands(tree: AstView, src: Seq<char>, pos: int) -> bool {
    &&& render(tree, 0) is Ok
    &&& occurs_at(src, pos, render(tree, 0)->Ok_0)
    &&& breaks_at(src, pos + render(tree, 0)->Ok_0.len())
}

/// Whether the scanner, on arrival at `pos`, makes the tokens of a tree and
/// goes on behind the text of the tree.
#[verifier::opaque]
pub open spec fn scans(tree: AstView, src: Seq<char>, pos: int, line: int, column: int) -> bool {
    tokens_from(src, pos, line, column) == prepend(
        source_tokens(tree),
        tokens_from(
            src,
            pos + render(tree, 0)->Ok_0.len(),
            line,
            column + render(tree, 0)->Ok_0.len(),
        ),
    )
}

/// A name, an integer literal or a string literal, where its text stands, is
/// scanned as its one token.
pub proof fn lemma_atom_scans(tree: AstView, src: Seq<char>, pos: int, line: int, column: int)
    requires
        plain(tree),
        tree is Identifier || tree is IntegerLiteral || tree is StringLiteral,
        stands(tree, src, pos),
    ensures
        scans(tree, src, pos, line, column),
{
    reveal(stands);
    reveal(scans);
    match tree {
        AstView::Identifier(name) => {
            lemma_name_scans(name, src, pos, line, column);
        },
        AstView::IntegerLiteral(v) => {
            lemma_integer_scans(v, src, pos, line, column);
        },
        AstView::StringLiteral(body) => {
            reveal_strlit("\"");
            assert("\""@ =~= seq!['"']);
            lemma_string_scans(body, src, pos, line, column);
        },
        _ => {},
    }
}

/// Where the text of a negation stands, the text of its operand stands behind
/// the minus sign.
pub proof fn lemma_negation_stands(tree: AstView, src: Seq<char>, pos: int)
    requires
        plain(tree),
        tree is UnaryOperation,
        stands(tree, src, pos),
    ensures
        plain(*tree->operand),
        stands(*tree->operand, src, pos + 1),
{
    reveal(stands);
    let operand = *tree->operand;
    lemma_first_char(operand);
    let inner = render(operand, 0)->Ok_0;
    assert(render(tree, 0)->Ok_0 == "-"@ + inner);
    lemma_negation_parts(inner, src, pos);
}

/// Where the operand of a negation is scanned as its tokens behind the minus
/// sign, the negation is scanned as its tokens.
pub proof fn lemma_negation_scans(tree: AstView, src: Seq<char>, pos: int, line: int, column: int)
    requires
        plain(tree),
        tree is UnaryOperation,
        stands(tree, src, pos),
        scans(*tree->operand, src, pos + 1, line, column + 1),
    ensures
        scans(tree, src, pos, line, column),
{
    reveal(stands);
    reveal(scans);
    let operand = *tree->operand;
    lemma_first_char(operand);
    let inner = render(operand, 0)->Ok_0;
    assert(render(tree, 0)->Ok_0 == "-"@ + inner);
    lemma_negation_parts(inner, src, pos);
    assert(src[pos + 1 + 0] == inner[0]);
    lemma_minus_scans(src, pos, line, column);
    let after = tokens_from(src, pos + 1 + inner.len(), line, column + 1 + inner.len());
    lemma_prepend_twice(seq![minus_token()], source_tokens(operand), after);
}

/// Where the text of an operation stands, the texts of its operands stand on
/// either side of the operator.
pub proof fn lemma_operation_stands(tree: AstView, src: Seq<char>, pos: int)
    requires
        plain(tree),
        tree is BinaryOperation,
        stands(tree, src, pos),
    ensures
        plain(*tree->left),
        plain(*tree->right),
        render(*tree->left, 0) is Ok,
        stands(*tree->left, src, pos),
        stands(
            *tree->right,
            src,
            pos + render(*tree->left, 0)->Ok_0.len() + binary_operator_text(
                tree->BinaryOperation_operator,
            ).len() + 2,
        ),
{
    reveal(stands);
    let left = *tree->left;
    let right = *tree->right;
    lemma_first_char(left);
    lemma_first_char(right);
    let l = render(left, 0)->Ok_0;
    let r = render(right, 0)->Ok_0;
    let o = binary_operator_text(tree->BinaryOperation_operator);
    assert(render(tree, 0)->Ok_0 == l + " "@ + o + " "@ + r);
    lemma_operation_parts(l, o, r, src, pos);
}

/// Where the operands of an operation are scanned as their tokens on either
/// side of the operator, the operation is scanned as its tokens.
pub proof fn lemma_operation_scans(tree: AstView, src: Seq<char>, pos: int, line: int, column: int)
    requires
        plain(tree),
        tree is BinaryOperation,
        stands(tree, src, pos),
        render(*tree->left, 0) is Ok,
        scans(*tree->left, src, pos, line, column),
        scans(
            *tree->right,
            src,
            pos + render(*tree->left, 0)->Ok_0.len() + binary_operator_text(
                tree->BinaryOperation_operator,
            ).len() + 2,
            line,
            column + render(*tree->left, 0)->Ok_0.len() + binary_operator_text(
                tree->BinaryOperation_operator,
            ).len() + 2,
        ),
    ensures
        scans(tree, src, pos, line, column),
{
    reveal(stands);
    reveal(scans);
    let left = *tree->left;
    let right = *tree->right;
    let operator = tree->BinaryOperation_operator;
    lemma_first_char(left);
    lemma_first_char(right);
    let l = render(left, 0)->Ok_0;
    let r = render(right, 0)->Ok_0;
    let o = binary_operator_text(operator);
    let text = render(tree, 0)->Ok_0;
    assert(text == l + " "@ + o + " "@ + r);
    lemma_operation_parts(l, o, r, src, pos);
    let p1 = pos + l.len();
    lemma_operator_between(operator, src, p1, line, column + l.len());
    let after = tokens_from(src, pos + text.len(), line, column + text.len());
    let token = operator_token(operator);
    lemma_prepend_twice(seq![token], source_tokens(right), after);
    lemma_prepend_twice(source_tokens(left), seq![token] + source_tokens(right), after);
    assert(source_tokens(left) + (seq![token] + source_tokens(right)) =~= source_tokens(tree));
}

/// The text of a plain expression, where it stands in a text and ends where
/// the text breaks, is scanned as the tokens of the expression.
pub proof fn lemma_plain_text_scans(
    tree: AstView,
    src: Seq<char>,
    pos: int,
    line: int,
    column: int,
)
    requires
        plain(tree),
        stands(tree, src, pos),
    ensures
        scans(tree, src, pos, line, column),
    decreases tree,
{
    match tree {
        AstView::UnaryOperation { operator, operand } => {
            lemma_negation_stands(tree, src, pos);
            lemma_plain_text_scans(*operand, src, pos + 1, line, column + 1);
            lemma_negation_scans(tree, src, pos, line, column);
        },
        AstView::BinaryOperation { operator, left, right } => {
            lemma_operation_stands(tree, src, pos);
            let skip = render(*left, 0)->Ok_0.len() + binary_operator_text(operator).len() + 2;
            lemma_plain_text_scans(*left, src, pos, line, column);
            lemma_plain_text_scans(*right, src, pos + skip, line, column + skip);
            lemma_operation_scans(tree, src, pos, line, column);
        },
        _ => {
            lemma_atom_scans(tree, src, pos, line, column);
        },
    }
}

/// A plain expression comes back: its Python text, scanned and parsed as a
/// program, is one statement, the expression itself.
pub proof fn law_plain_expression_comes_back(tree: AstView)
    requires
        plain(tree),
    ensures
        reparsed(tree) == Some(seq![tree]),
{
    lemma_first_char(tree);
    let text = render(tree, 0)->Ok_0;
    let n = text.len() as int;
    assert(stands(tree, text, 0)) by {
        reveal(stands);
    }
    lemma_plain_text_scans(tree, text, 0, 0, 0);
    reveal(scans);
    assert(tokens_from(text, n, 0, n) == Ok::<Seq<TokenView>, LexError>(seq![eof_token()]));
    law_plain_tokens_come_back(tree);
}

} // verus!
