//! What holds of the scanner on whole classes of source texts.

use crate::lexer::rules::{
    counter, digits_end, digraph_kind, is_blank, keyword_table, lemma_digits_end,
    lemma_quote_from, lemma_scan_bounds, lemma_word_end, lookup, quote_from, scan_at,
    scan_number, scan_string, scan_word, single_kind, tokenize, tokens_from, word_end, word_kind,
    Scan,
};
use crate::lexer::{eof_token, LexError, TokenType, TokenView, ValueView};
use crate::text::{
    all_digits, decimal_digits, decimal_value, is_digit, lemma_decimal_round_trip, letter,
    letter_or_number,
};
use vstd::prelude::*;

verus! {

/// No token begins with `c`, whatever follows it: `c` is no white space, no
/// operator or punctuation mark and no first half of one, no letter, no digit
/// and no double quote.
pub open spec fn outside_rules(c: char) -> bool {
    &&& !is_blank(c)
    &&& c != '\n'
    &&& forall|second: char| (#[trigger] digraph_kind(c, second)) is None
    &&& single_kind(c) is None
    &&& c != '"'
    &&& !is_digit(c)
    &&& !letter(c)
}

/// The empty text has no token but the end-of-stream token.
pub proof fn law_empty_source()
    ensures
        tokenize(Seq::<char>::empty()) == Ok::<Seq<TokenView>, LexError>(seq![eof_token()]),
{
}

/// A text that is one integer literal, a run of digits whose value fits in 64
/// bits, makes one integer token with that value, and then the stream ends.
pub proof fn law_integer_literal(src: Seq<char>)
    requires
        src.len() > 0,
        all_digits(src),
        decimal_value(src) <= i64::MAX,
    ensures
        tokenize(src) == Ok::<Seq<TokenView>, LexError>(
            seq![
                TokenView {
                    kind: TokenType::Integer,
                    lexeme: src,
                    value: Some(ValueView::IntegerLiteral(decimal_value(src) as i64)),
                },
                eof_token(),
            ],
        ),
{
    let n = src.len() as int;
    lemma_digits_end(src, 0);
    assert(digits_end(src, 0) == n);
    assert(src.subrange(0, n) =~= src);
    assert(forall|second: char| (#[trigger] digraph_kind(src[0], second)) is None);
    assert(scan_at(src, 0) == scan_number(src, 0));
    let token = TokenView {
        kind: TokenType::Integer,
        lexeme: src,
        value: Some(ValueView::IntegerLiteral(decimal_value(src) as i64)),
    };
    assert(tokens_from(src, n, 0, n) == Ok::<Seq<TokenView>, LexError>(seq![eof_token()]));
    assert(seq![token] + seq![eof_token()] =~= seq![token, eof_token()]);
}

/// A text that is one float literal, digits with a point among them that is
/// neither first nor last, makes one float token whose value is the text as
/// it stands, and then the stream ends.
pub proof fn law_float_literal(whole: Seq<char>, fraction: Seq<char>)
    requires
        whole.len() > 0,
        fraction.len() > 0,
        all_digits(whole),
        all_digits(fraction),
    ensures
        tokenize(whole + seq!['.'] + fraction) == Ok::<Seq<TokenView>, LexError>(
            seq![
                TokenView {
                    kind: TokenType::Float,
                    lexeme: whole + seq!['.'] + fraction,
                    value: Some(ValueView::FloatLiteral(whole + seq!['.'] + fraction)),
                },
                eof_token(),
            ],
        ),
{
    let src = whole + seq!['.'] + fraction;
    let n = src.len() as int;
    let w = whole.len() as int;
    assert forall|i: int| 0 <= i < w implies is_digit(#[trigger] src[i]) by {
        assert(src[i] == whole[i]);
    }
    assert(src[w] == '.');
    assert forall|i: int| w < i < n implies is_digit(#[trigger] src[i]) by {
        assert(src[i] == fraction[i - w - 1]);
    }
    lemma_digits_end(src, 0);
    assert(digits_end(src, 0) == w);
    lemma_digits_end(src, w + 1);
    assert(digits_end(src, w + 1) == n);
    assert(src.subrange(0, n) =~= src);
    assert(forall|second: char| (#[trigger] digraph_kind(src[0], second)) is None);
    assert(scan_at(src, 0) == scan_number(src, 0));
    let token = TokenView {
        kind: TokenType::Float,
        lexeme: src,
        value: Some(ValueView::FloatLiteral(src)),
    };
    assert(tokens_from(src, n, 0, n) == Ok::<Seq<TokenView>, LexError>(seq![eof_token()]));
    assert(seq![token] + seq![eof_token()] =~= seq![token, eof_token()]);
}

/// The decimal spelling of a number that fits in 64 bits is read back as one
/// integer token with that number as its value.
pub proof fn law_integer_round_trip(n: nat)
    requires
        n <= i64::MAX,
    ensures
        tokenize(decimal_digits(n)) == Ok::<Seq<TokenView>, LexError>(
            seq![
                TokenView {
                    kind: TokenType::Integer,
                    lexeme: decimal_digits(n),
                    value: Some(ValueView::IntegerLiteral(n as i64)),
                },
                eof_token(),
            ],
        ),
{
    lemma_decimal_round_trip(n);
    law_integer_literal(decimal_digits(n));
}

/// A word: a letter, and after it letters and numbers only.
pub open spec fn is_word(text: Seq<char>) -> bool {
    &&& text.len() > 0
    &&& letter(text[0])
    &&& forall|i: int| 0 < i < text.len() ==> letter_or_number(#[trigger] text[i])
}

/// With a letter begins neither white space nor an operator nor a
/// punctuation mark.
pub proof fn lemma_letter_begins_word(c: char)
    requires
        letter(c),
    ensures
        !is_blank(c),
        c != '\n',
        single_kind(c) is None,
        forall|second: char| (#[trigger] digraph_kind(c, second)) is None,
{
}

/// A text that is one word makes one token, and then the stream ends. The
/// token is of the kind that the table of reserved words gives for the word,
/// and an identifier where the table does not hold it.
pub proof fn law_word(src: Seq<char>)
    requires
        is_word(src),
    ensures
        tokenize(src) == Ok::<Seq<TokenView>, LexError>(
            seq![TokenView { kind: word_kind(src), lexeme: src, value: None }, eof_token()],
        ),
{
    let n = src.len() as int;
    lemma_word_end(src, 1);
    assert(word_end(src, 1) == n);
    assert(src.subrange(0, n) =~= src);
    lemma_letter_begins_word(src[0]);
    assert(scan_at(src, 0) == scan_word(src, 0));
    let token = TokenView { kind: word_kind(src), lexeme: src, value: None };
    assert(tokens_from(src, n, 0, n) == Ok::<Seq<TokenView>, LexError>(seq![eof_token()]));
    assert(seq![token] + seq![eof_token()] =~= seq![token, eof_token()]);
}

/// A text that is `body` between two double quotes, where `body` holds no
/// double quote, makes one string token whose value is `body` as it stands,
/// and then the stream ends.
pub proof fn law_string_literal(body: Seq<char>)
    requires
        forall|i: int| 0 <= i < body.len() ==> body[i] != '"',
    ensures
        tokenize(seq!['"'] + body + seq!['"']) == Ok::<Seq<TokenView>, LexError>(
            seq![
                TokenView {
                    kind: TokenType::String,
                    lexeme: seq!['"'] + body + seq!['"'],
                    value: Some(ValueView::StringLiteral(body)),
                },
                eof_token(),
            ],
        ),
{
    let src = seq!['"'] + body + seq!['"'];
    let n = src.len() as int;
    lemma_quote_from(src, 1);
    let close = quote_from(src, 1);
    assert(src[n - 1] == '"');
    assert forall|i: int| 1 <= i < n - 1 implies src[i] != '"' by {
        assert(src[i] == body[i - 1]);
    }
    assert(close == n - 1);
    assert(src.subrange(1, close) =~= body);
    assert(src.subrange(0, n) =~= src);
    assert(forall|second: char| (#[trigger] digraph_kind('"', second)) is None);
    assert(scan_at(src, 0) == scan_string(src, 0));
    let token = TokenView {
        kind: TokenType::String,
        lexeme: src,
        value: Some(ValueView::StringLiteral(body)),
    };
    assert(tokens_from(src, n, 0, n) == Ok::<Seq<TokenView>, LexError>(seq![eof_token()]));
    assert(seq![token] + seq![eof_token()] =~= seq![token, eof_token()]);
}

/// A text that opens a string literal and never closes it is refused as an
/// unterminated string, with the column counter at the end of the text.
pub proof fn law_unterminated_string(body: Seq<char>)
    requires
        forall|i: int| 0 <= i < body.len() ==> body[i] != '"',
    ensures
        tokenize(seq!['"'] + body) == Err::<Seq<TokenView>, LexError>(
            LexError::UnterminatedString { line: 0, column: counter(body.len() as int + 1) },
        ),
{
    let src = seq!['"'] + body;
    let n = src.len() as int;
    lemma_quote_from(src, 1);
    let close = quote_from(src, 1);
    if close < n {
        assert(src[close] == body[close - 1]);
    }
    assert(forall|second: char| (#[trigger] digraph_kind('"', second)) is None);
    assert(scan_at(src, 0) == scan_string(src, 0));
}

/// Wherever the scanner arrives at a character with which no token begins, it
/// fails and names that character.
pub proof fn law_unexpected_character(src: Seq<char>, pos: int, line: int, column: int)
    requires
        0 <= pos < src.len(),
        outside_rules(src[pos]),
    ensures
        tokens_from(src, pos, line, column) == Err::<Seq<TokenView>, LexError>(
            LexError::UnexpectedCharacter {
                ch: src[pos],
                line: counter(line),
                column: counter(column + 1),
            },
        ),
{
    if pos + 1 < src.len() {
        assert(digraph_kind(src[pos], src[pos + 1]) is None);
    }
}

/// A text that begins with a character with which no token begins is refused,
/// and the error names that character.
pub proof fn law_unexpected_first_character(src: Seq<char>)
    requires
        src.len() > 0,
        outside_rules(src[0]),
    ensures
        tokenize(src) == Err::<Seq<TokenView>, LexError>(
            LexError::UnexpectedCharacter { ch: src[0], line: 0, column: 1 },
        ),
{
    law_unexpected_character(src, 0, 0, 0);
}

/// When the scanner refuses a character, that character stands in the text,
/// at a place where no rule applies.
pub proof fn law_unexpected_is_in_source(
    src: Seq<char>,
    pos: int,
    line: int,
    column: int,
    ch: char,
)
    requires
        0 <= pos,
        tokens_from(src, pos, line, column) matches Err(
            LexError::UnexpectedCharacter { ch: found, .. },
        ) && found == ch,
    ensures
        exists|at: int|
            pos <= at < src.len() && src[at] == ch && #[trigger] scan_at(src, at) == (
            Scan::Unexpected { ch }),
    decreases src.len() - pos,
{
    if pos < src.len() {
        lemma_scan_bounds(src, pos);
        match scan_at(src, pos) {
            Scan::Blank => {
                law_unexpected_is_in_source(src, pos + 1, line, column + 1, ch);
            },
            Scan::LineBreak => {
                law_unexpected_is_in_source(src, pos + 1, line + 1, 1, ch);
            },
            Scan::Token { kind, value, end } => {
                law_unexpected_is_in_source(src, end, line, column + (end - pos), ch);
            },
            Scan::Unexpected { ch: found } => {
                assert(scan_at(src, pos) == (Scan::Unexpected { ch }));
            },
            _ => {},
        }
    }
}

/// What a table gives for a word is the kind of one of its entries.
pub proof fn lemma_lookup_is_entry(table: Seq<(Seq<char>, TokenType)>, word: Seq<char>)
    ensures
        lookup(table, word) matches Some(kind) ==> exists|i: int|
            0 <= i < table.len() && (#[trigger] table[i]).1 == kind,
    decreases table.len(),
{
    if table.len() > 0 && table[0].0 != word {
        lemma_lookup_is_entry(table.drop_first(), word);
        if let Some(kind) = lookup(table, word) {
            let i = choose|i: int|
                0 <= i < table.drop_first().len() && (#[trigger] table.drop_first()[i]).1 == kind;
            assert(table[i + 1] == table.drop_first()[i]);
        }
    }
}

/// No word makes the end-of-stream token.
pub proof fn lemma_word_is_no_end(word: Seq<char>)
    ensures
        word_kind(word) != TokenType::Eof,
{
    lemma_lookup_is_entry(keyword_table(), word);
    assert forall|i: int| 0 <= i < keyword_table().len() implies (#[trigger] keyword_table()[i]).1
        != TokenType::Eof by {
        if i == 0 {
        } else if i == 1 {
        } else if i == 2 {
        } else if i == 3 {
        } else if i == 4 {
        } else if i == 5 {
        } else if i == 6 {
        } else if i == 7 {
        } else if i == 8 {
        } else if i == 9 {
        } else if i == 10 {
        } else if i == 11 {
        } else if i == 12 {
        } else if i == 13 {
        } else if i == 14 {
        } else if i == 15 {
        } else if i == 16 {
        } else if i == 17 {
        } else if i == 18 {
        } else if i == 19 {
        } else {
        }
    }
}

/// The tokens of a text end with the end-of-stream token, and hold no other
/// token of that kind.
pub proof fn law_stream_ends_once(src: Seq<char>, pos: int, line: int, column: int)
    requires
        0 <= pos,
    ensures
        tokens_from(src, pos, line, column) matches Ok(tokens) ==> {
            &&& tokens.len() > 0
            &&& tokens.last() == eof_token()
            &&& forall|i: int| 0 <= i < tokens.len() - 1 ==> (#[trigger] tokens[i]).kind
                != TokenType::Eof
        },
    decreases src.len() - pos,
{
    if pos < src.len() {
        lemma_scan_bounds(src, pos);
        match scan_at(src, pos) {
            Scan::Blank => {
                law_stream_ends_once(src, pos + 1, line, column + 1);
            },
            Scan::LineBreak => {
                law_stream_ends_once(src, pos + 1, line + 1, 1);
            },
            Scan::Token { kind, value, end } => {
                law_stream_ends_once(src, end, line, column + (end - pos));
                lemma_word_is_no_end(src.subrange(pos, word_end(src, pos + 1)));
                assert(kind != TokenType::Eof);
                if let Ok(rest) = tokens_from(src, end, line, column + (end - pos)) {
                    let head = TokenView { kind, lexeme: src.subrange(pos, end), value };
                    let tokens = seq![head] + rest;
                    assert(tokens.last() == rest.last());
                    assert forall|i: int| 0 <= i < tokens.len() - 1 implies (
                    #[trigger] tokens[i]).kind != TokenType::Eof by {
                        if i > 0 {
                            assert(tokens[i] == rest[i - 1]);
                        }
                    }
                }
            },
            _ => {},
        }
    }
}

} // verus!
