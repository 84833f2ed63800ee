//! The lexical rules of the language, as functions on sequences of
//! characters.

use crate::lexer::{eof_token, LexError, TokenType, TokenView, ValueView};
use crate::text::{decimal_i64, is_digit, letter, letter_or_number};
use vstd::prelude::*;

verus! {

/// The reserved words, each with the kind of token it makes.
pub open spec fn keyword_table() -> Seq<(Seq<char>, TokenType)> {
    seq![
        ("enum"@, TokenType::Enum),
        ("endenum"@, TokenType::EndEnum),
        ("struct"@, TokenType::Struct),
        ("endstruct"@, TokenType::EndStruct),
        ("if"@, TokenType::If),
        ("then"@, TokenType::Then),
        ("endif"@, TokenType::EndIf),
        ("else"@, TokenType::Else),
        ("def"@, TokenType::Def),
        ("enddef"@, TokenType::EndDef),
        ("for"@, TokenType::For),
        ("do"@, TokenType::Do),
        ("done"@, TokenType::Done),
        ("while"@, TokenType::While),
        ("true"@, TokenType::True),
        ("false"@, TokenType::False),
        ("return"@, TokenType::Return),
        ("break"@, TokenType::Break),
        ("continue"@, TokenType::Continue),
        ("use"@, TokenType::Use),
        ("type"@, TokenType::TypeAlias),
    ]
}

/// The kind that the first entry for `word` in `table` gives, if there is one.
pub open spec fn lookup(table: Seq<(Seq<char>, TokenType)>, word: Seq<char>) -> Option<TokenType>
    decreases table.len(),
{
    if table.len() == 0 {
        None
    } else if table[0].0 == word {
        Some(table[0].1)
    } else {
        lookup(table.drop_first(), word)
    }
}

/// White space that separates tokens and makes none.
pub open spec fn is_blank(c: char) -> bool {
    c == ' ' || c == '\r' || c == '\t'
}

/// The operator that two characters make together, if they make one.
pub open spec fn digraph_kind(first: char, second: char) -> Option<TokenType> {
    if first == '+' && second == '=' {
        Some(TokenType::PlusEqual)
    } else if first == '-' && second == '=' {
        Some(TokenType::MinusEqual)
    } else if first == '-' && second == '>' {
        Some(TokenType::RightArrow)
    } else if first == '*' && second == '=' {
        Some(TokenType::AsteriskEqual)
    } else if first == '*' && second == '*' {
        Some(TokenType::AsteriskAsterisk)
    } else if first == '/' && second == '=' {
        Some(TokenType::SlashEqual)
    } else if first == '%' && second == '=' {
        Some(TokenType::ModulusEqual)
    } else if first == '=' && second == '=' {
        Some(TokenType::EqualEqual)
    } else if first == '!' && second == '=' {
        Some(TokenType::BangEqual)
    } else if first == '<' && second == '=' {
        Some(TokenType::LessEqual)
    } else if first == '>' && second == '=' {
        Some(TokenType::GreaterEqual)
    } else if first == '&' && second == '&' {
        Some(TokenType::And)
    } else if first == '|' && second == '|' {
        Some(TokenType::Or)
    } else if first == ':' && second == ':' {
        Some(TokenType::ScopeOperator)
    } else if first == '.' && second == '.' {
        Some(TokenType::DotDot)
    } else {
        None
    }
}

/// The operator or punctuation mark that one character makes alone, if it
/// makes one.
pub open spec fn single_kind(c: char) -> Option<TokenType> {
    if c == '+' {
        Some(TokenType::Plus)
    } else if c == '-' {
        Some(TokenType::Minus)
    } else if c == '*' {
        Some(TokenType::Asterisk)
    } else if c == '/' {
        Some(TokenType::Slash)
    } else if c == '%' {
        Some(TokenType::Modulus)
    } else if c == '@' {
        Some(TokenType::At)
    } else if c == '!' {
        Some(TokenType::Bang)
    } else if c == '=' {
        Some(TokenType::Equal)
    } else if c == '<' {
        Some(TokenType::Less)
    } else if c == '>' {
        Some(TokenType::Greater)
    } else if c == '.' {
        Some(TokenType::Dot)
    } else if c == ',' {
        Some(TokenType::Comma)
    } else if c == '(' {
        Some(TokenType::LeftParen)
    } else if c == ')' {
        Some(TokenType::RightParen)
    } else if c == '[' {
        Some(TokenType::LeftBracket)
    } else if c == ']' {
        Some(TokenType::RightBracket)
    } else if c == '{' {
        Some(TokenType::LeftBrace)
    } else if c == '}' {
        Some(TokenType::RightBrace)
    } else if c == '_' {
        Some(TokenType::Underscore)
    } else if c == ':' {
        Some(TokenType::Colon)
    } else {
        None
    }
}

/// The kind of token that a word makes: the one that the table of reserved
/// words gives, and an identifier otherwise.
pub open spec fn word_kind(word: Seq<char>) -> TokenType {
    match lookup(keyword_table(), word) {
        Some(kind) => kind,
        None => TokenType::Identifier,
    }
}

/// Where the run of digits that begins at `from` ends: the first place at or
/// after `from` that holds no digit, or the end of the text.
pub open spec fn digits_end(src: Seq<char>, from: int) -> int
    decreases src.len() - from,
{
    if 0 <= from < src.len() && is_digit(src[from]) {
        digits_end(src, from + 1)
    } else {
        from
    }
}

/// Where the run of letters and numbers that begins at `from` ends.
pub open spec fn word_end(src: Seq<char>, from: int) -> int
    decreases src.len() - from,
{
    if 0 <= from < src.len() && letter_or_number(src[from]) {
        word_end(src, from + 1)
    } else {
        from
    }
}

/// The place of the first double quote at or after `from`, or the end of the
/// text if there is none.
pub open spec fn quote_from(src: Seq<char>, from: int) -> int
    decreases src.len() - from,
{
    if 0 <= from < src.len() && src[from] != '"' {
        quote_from(src, from + 1)
    } else {
        from
    }
}

/// What the rules make of the text at one place.
pub enum Scan {
    /// White space other than a line break.
    Blank,
    /// A line break.
    LineBreak,
    /// A token of this kind and value, whose text ends before `end`.
    Token { kind: TokenType, value: Option<ValueView>, end: int },
    /// A string literal that is still open at the end of the text.
    Unterminated,
    /// An integer literal, ending before `end`, that is too large.
    Overflow { end: int },
    /// A character with which no token begins.
    Unexpected { ch: char },
}

/// The string literal that opens at `pos`: it runs to the next double quote,
/// and its value is the text between the two.
pub open spec fn scan_string(src: Seq<char>, pos: int) -> Scan {
    let close = quote_from(src, pos + 1);
    if close < src.len() {
        Scan::Token {
            kind: TokenType::String,
            value: Some(ValueView::StringLiteral(src.subrange(pos + 1, close))),
            end: close + 1,
        }
    } else {
        Scan::Unterminated
    }
}

/// The number that begins at `pos`: a run of digits, which makes a float when
/// a point and at least one more digit follow, and an integer otherwise.
pub open spec fn scan_number(src: Seq<char>, pos: int) -> Scan {
    let whole = digits_end(src, pos);
    if whole + 1 < src.len() && src[whole] == '.' && is_digit(src[whole + 1]) {
        let end = digits_end(src, whole + 1);
        Scan::Token {
            kind: TokenType::Float,
            value: Some(ValueView::FloatLiteral(src.subrange(pos, end))),
            end,
        }
    } else {
        match decimal_i64(src.subrange(pos, whole)) {
            Some(v) => Scan::Token {
                kind: TokenType::Integer,
                value: Some(ValueView::IntegerLiteral(v)),
                end: whole,
            },
            None => Scan::Overflow { end: whole },
        }
    }
}

/// The word that begins at `pos`: a letter and the letters and numbers that
/// follow it.
pub open spec fn scan_word(src: Seq<char>, pos: int) -> Scan {
    let end = word_end(src, pos + 1);
    Scan::Token { kind: word_kind(src.subrange(pos, end)), value: None, end }
}

/// What the rules make of the text at `pos`, a place inside the text. The
/// first rule that applies decides: white space, then the operators of two
/// characters, then those of one; then, by the first character, a word for a
/// letter, a number for a digit and a string literal for a double quote.
pub open spec fn scan_at(src: Seq<char>, pos: int) -> Scan {
    let c = src[pos];
    if is_blank(c) {
        Scan::Blank
    } else if c == '\n' {
        Scan::LineBreak
    } else if pos + 1 < src.len() && digraph_kind(c, src[pos + 1]) is Some {
        Scan::Token { kind: digraph_kind(c, src[pos + 1])->0, value: None, end: pos + 2 }
    } else if single_kind(c) is Some {
        Scan::Token { kind: single_kind(c)->0, value: None, end: pos + 1 }
    } else if letter(c) {
        scan_word(src, pos)
    } else if is_digit(c) {
        scan_number(src, pos)
    } else if c == '"' {
        scan_string(src, pos)
    } else {
        Scan::Unexpected { ch: c }
    }
}

/// A run of digits ends at or after its start, inside the text.
pub proof fn lemma_digits_end(src: Seq<char>, from: int)
    requires
        0 <= from <= src.len(),
    ensures
        from <= digits_end(src, from) <= src.len(),
        forall|i: int| from <= i < digits_end(src, from) ==> is_digit(#[trigger] src[i]),
        digits_end(src, from) < src.len() ==> !is_digit(src[digits_end(src, from)]),
    decreases src.len() - from,
{
    if from < src.len() && is_digit(src[from]) {
        lemma_digits_end(src, from + 1);
    }
}

/// A run of letters and numbers ends at or after its start, inside the text.
pub proof fn lemma_word_end(src: Seq<char>, from: int)
    requires
        0 <= from <= src.len(),
    ensures
        from <= word_end(src, from) <= src.len(),
        forall|i: int| from <= i < word_end(src, from) ==> letter_or_number(#[trigger] src[i]),
        word_end(src, from) < src.len() ==> !letter_or_number(src[word_end(src, from)]),
    decreases src.len() - from,
{
    if from < src.len() && letter_or_number(src[from]) {
        lemma_word_end(src, from + 1);
    }
}

/// The first double quote from a place on lies at or after that place, and
/// no double quote comes before it.
pub proof fn lemma_quote_from(src: Seq<char>, from: int)
    requires
        0 <= from <= src.len(),
    ensures
        from <= quote_from(src, from) <= src.len(),
        forall|i: int| from <= i < quote_from(src, from) ==> #[trigger] src[i] != '"',
        quote_from(src, from) < src.len() ==> src[quote_from(src, from)] == '"',
    decreases src.len() - from,
{
    if from < src.len() && src[from] != '"' {
        lemma_quote_from(src, from + 1);
    }
}

/// A token that the rules match at a place has at least one character and
/// ends inside the text; so does an integer literal that is too large.
pub proof fn lemma_scan_bounds(src: Seq<char>, pos: int)
    requires
        0 <= pos < src.len(),
    ensures
        scan_at(src, pos) matches Scan::Token { end, .. } ==> pos < end <= src.len(),
        scan_at(src, pos) matches Scan::Overflow { end } ==> pos < end <= src.len(),
{
    lemma_quote_from(src, pos + 1);
    lemma_word_end(src, pos + 1);
    lemma_digits_end(src, pos);
    let whole = digits_end(src, pos);
    if whole + 1 < src.len() {
        lemma_digits_end(src, whole + 1);
    }
}

/// A counter of the scanner as a machine integer.
pub open spec fn counter(n: int) -> usize {
    #[verifier::truncate]
    (n as usize)
}

/// A result with `head` put before its tokens.
pub open spec fn prepend(head: Seq<TokenView>, rest: Result<Seq<TokenView>, LexError>) -> Result<
    Seq<TokenView>,
    LexError,
> {
    match rest {
        Ok(tokens) => Ok(head + tokens),
        Err(e) => Err(e),
    }
}

/// The tokens of the text from `pos` on, ending with the end-of-stream token,
/// or the first error. `line` and `column` are the counters on arrival at
/// `pos`: every character that is consumed adds one to the column, and a line
/// break between tokens adds one to the line and sets the column to one.
pub open spec fn tokens_from(src: Seq<char>, pos: int, line: int, column: int) -> Result<
    Seq<TokenView>,
    LexError,
>
    decreases src.len() - pos,
{
    if pos < 0 || pos >= src.len() {
        Ok(seq![eof_token()])
    } else {
        match scan_at(src, pos) {
            Scan::Blank => tokens_from(src, pos + 1, line, column + 1),
            Scan::LineBreak => tokens_from(src, pos + 1, line + 1, 1),
            Scan::Token { kind, value, end } => {
                proof {
                    lemma_scan_bounds(src, pos);
                }
                prepend(
                    seq![TokenView { kind, lexeme: src.subrange(pos, end), value }],
                    tokens_from(src, end, line, column + (end - pos)),
                )
            },
            Scan::Unterminated => Err(
                LexError::UnterminatedString {
                    line: counter(line),
                    column: counter(column + (src.len() - pos)),
                },
            ),
            Scan::Overflow { end } => Err(
                LexError::MalformedNumber {
                    line: counter(line),
                    column: counter(column + (end - pos)),
                },
            ),
            Scan::Unexpected { ch } => Err(
                LexError::UnexpectedCharacter {
                    ch,
                    line: counter(line),
                    column: counter(column + 1),
                },
            ),
        }
    }
}

/// The tokens of a source text, ending with the end-of-stream token, or the
/// first error.
pub open spec fn tokenize(src: Seq<char>) -> Result<Seq<TokenView>, LexError> {
    tokens_from(src, 0, 0, 0)
}

} // verus!
