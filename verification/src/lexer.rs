//! The token model and the scanner.
//!
//! A [`PieToken`] is a kind, the text that was matched and, for a literal, its
//! value. [`scan_all_tokens`] turns a source text into a [`PieTokenStream`];
//! what it produces is defined by [`rules::tokenize`].

pub mod laws;
pub mod rules;

use crate::lexer::rules::{
    counter, digits_end, digraph_kind, keyword_table, lemma_quote_from, lemma_scan_bounds, lookup,
    prepend, quote_from, scan_at, single_kind, tokenize, tokens_from, word_end, word_kind, Scan,
};
use crate::text::{
    characters, decimal_digits, is_decimal_digit, is_digit, is_letter, is_letter_or_number,
    parse_decimal, render_unsigned,
};
use vstd::prelude::*;
use vstd::string::*;

verus! {

/// The kinds of token.
#[derive(Clone, Copy, Debug, PartialEq, Eq, Structural)]
pub enum TokenType {
    Plus,
    PlusEqual,
    Minus,
    MinusEqual,
    Asterisk,
    AsteriskAsterisk,
    AsteriskEqual,
    Slash,
    SlashEqual,
    Modulus,
    ModulusEqual,
    At,
    Equal,
    EqualEqual,
    Bang,
    BangEqual,
    And,
    Or,
    Less,
    LessEqual,
    Greater,
    GreaterEqual,
    Dot,
    DotDot,
    Comma,
    LeftParen,
    RightParen,
    LeftBracket,
    RightBracket,
    LeftBrace,
    RightBrace,
    Underscore,
    Colon,
    ScopeOperator,
    RightArrow,
    Float,
    Integer,
    True,
    False,
    String,
    FormatString,
    Identifier,
    Enum,
    EndEnum,
    Struct,
    EndStruct,
    Def,
    EndDef,
    If,
    Then,
    EndIf,
    Else,
    For,
    Do,
    Done,
    While,
    Return,
    Break,
    Continue,
    Use,
    TypeAlias,
    Eof,
}

impl TokenType {
    /// How tightly an operator binds: 0 for logical not, 1 for the
    /// comparisons, 2 for the assignments, 3 for addition, subtraction,
    /// conjunction and disjunction, 4 for multiplication, division and
    /// remainder, 5 for exponentiation, and -1 for every kind that is no
    /// operator.
    pub open spec fn precedence(self) -> int {
        match self {
            TokenType::Bang => 0,
            TokenType::EqualEqual
            | TokenType::GreaterEqual
            | TokenType::LessEqual
            | TokenType::BangEqual
            | TokenType::Less
            | TokenType::Greater => 1,
            TokenType::PlusEqual
            | TokenType::SlashEqual
            | TokenType::ModulusEqual
            | TokenType::Equal
            | TokenType::AsteriskEqual
            | TokenType::MinusEqual => 2,
            TokenType::Plus | TokenType::And | TokenType::Or | TokenType::Minus => 3,
            TokenType::Asterisk | TokenType::Modulus | TokenType::Slash => 4,
            TokenType::AsteriskAsterisk => 5,
            _ => -1,
        }
    }

    /// The name of the kind, as text.
    pub open spec fn name_text(self) -> Seq<char> {
        match self {
            TokenType::Plus => "Plus"@,
            TokenType::PlusEqual => "PlusEqual"@,
            TokenType::Minus => "Minus"@,
            TokenType::MinusEqual => "MinusEqual"@,
            TokenType::Asterisk => "Asterisk"@,
            TokenType::AsteriskAsterisk => "AsteriskAsterisk"@,
            TokenType::AsteriskEqual => "AsteriskEqual"@,
            TokenType::Slash => "Slash"@,
            TokenType::SlashEqual => "SlashEqual"@,
            TokenType::Modulus => "Modulus"@,
            TokenType::ModulusEqual => "ModulusEqual"@,
            TokenType::At => "At"@,
            TokenType::Equal => "Equal"@,
            TokenType::EqualEqual => "EqualEqual"@,
            TokenType::Bang => "Bang"@,
            TokenType::BangEqual => "BangEqual"@,
            TokenType::And => "And"@,
            TokenType::Or => "Or"@,
            TokenType::Less => "Less"@,
            TokenType::LessEqual => "LessEqual"@,
            TokenType::Greater => "Greater"@,
            TokenType::GreaterEqual => "GreaterEqual"@,
            TokenType::Dot => "Dot"@,
            TokenType::DotDot => "DotDot"@,
            TokenType::Comma => "Comma"@,
            TokenType::LeftParen => "LeftParen"@,
            TokenType::RightParen => "RightParen"@,
            TokenType::LeftBracket => "LeftBracket"@,
            TokenType::RightBracket => "RightBracket"@,
            TokenType::LeftBrace => "LeftBrace"@,
            TokenType::RightBrace => "RightBrace"@,
            TokenType::Underscore => "Underscore"@,
            TokenType::Colon => "Colon"@,
            TokenType::ScopeOperator => "ScopeOperator"@,
            TokenType::RightArrow => "RightArrow"@,
            TokenType::Float => "Float"@,
            TokenType::Integer => "Integer"@,
            TokenType::True => "True"@,
            TokenType::False => "False"@,
            TokenType::String => "String"@,
            TokenType::FormatString => "FormatString"@,
            TokenType::Identifier => "Identifier"@,
            TokenType::Enum => "Enum"@,
            TokenType::EndEnum => "EndEnum"@,
            TokenType::Struct => "Struct"@,
            TokenType::EndStruct => "EndStruct"@,
            TokenType::Def => "Def"@,
            TokenType::EndDef => "EndDef"@,
            TokenType::If => "If"@,
            TokenType::Then => "Then"@,
            TokenType::EndIf => "EndIf"@,
            TokenType::Else => "Else"@,
            TokenType::For => "For"@,
            TokenType::Do => "Do"@,
            TokenType::Done => "Done"@,
            TokenType::While => "While"@,
            TokenType::Return => "Return"@,
            TokenType::Break => "Break"@,
            TokenType::Continue => "Continue"@,
            TokenType::Use => "Use"@,
            TokenType::TypeAlias => "TypeAlias"@,
            TokenType::Eof => "Eof"@,
        }
    }

    /// The name of the kind, for messages.
    pub fn name(&self) -> (r: &'static str)
        ensures
            r@ == self.name_text(),
    {
        match self {
            TokenType::Plus => "Plus",
            TokenType::PlusEqual => "PlusEqual",
            TokenType::Minus => "Minus",
            TokenType::MinusEqual => "MinusEqual",
            TokenType::Asterisk => "Asterisk",
            TokenType::AsteriskAsterisk => "AsteriskAsterisk",
            TokenType::AsteriskEqual => "AsteriskEqual",
            TokenType::Slash => "Slash",
            TokenType::SlashEqual => "SlashEqual",
            TokenType::Modulus => "Modulus",
            TokenType::ModulusEqual => "ModulusEqual",
            TokenType::At => "At",
            TokenType::Equal => "Equal",
            TokenType::EqualEqual => "EqualEqual",
            TokenType::Bang => "Bang",
            TokenType::BangEqual => "BangEqual",
            TokenType::And => "And",
            TokenType::Or => "Or",
            TokenType::Less => "Less",
            TokenType::LessEqual => "LessEqual",
            TokenType::Greater => "Greater",
            TokenType::GreaterEqual => "GreaterEqual",
            TokenType::Dot => "Dot",
            TokenType::DotDot => "DotDot",
            TokenType::Comma => "Comma",
            TokenType::LeftParen => "LeftParen",
            TokenType::RightParen => "RightParen",
            TokenType::LeftBracket => "LeftBracket",
            TokenType::RightBracket => "RightBracket",
            TokenType::LeftBrace => "LeftBrace",
            TokenType::RightBrace => "RightBrace",
            TokenType::Underscore => "Underscore",
            TokenType::Colon => "Colon",
            TokenType::ScopeOperator => "ScopeOperator",
            TokenType::RightArrow => "RightArrow",
            TokenType::Float => "Float",
            TokenType::Integer => "Integer",
            TokenType::True => "True",
            TokenType::False => "False",
            TokenType::String => "String",
            TokenType::FormatString => "FormatString",
            TokenType::Identifier => "Identifier",
            TokenType::Enum => "Enum",
            TokenType::EndEnum => "EndEnum",
            TokenType::Struct => "Struct",
            TokenType::EndStruct => "EndStruct",
            TokenType::Def => "Def",
            TokenType::EndDef => "EndDef",
            TokenType::If => "If",
            TokenType::Then => "Then",
            TokenType::EndIf => "EndIf",
            TokenType::Else => "Else",
            TokenType::For => "For",
            TokenType::Do => "Do",
            TokenType::Done => "Done",
            TokenType::While => "While",
            TokenType::Return => "Return",
            TokenType::Break => "Break",
            TokenType::Continue => "Continue",
            TokenType::Use => "Use",
            TokenType::TypeAlias => "TypeAlias",
            TokenType::Eof => "Eof",
        }
    }

    /// Whether the token is an operator that takes two operands: one of the
    /// kinds whose precedence is 1 or more.
    pub fn is_binary_operator(token: &PieToken) -> (r: bool)
        ensures
            r == (token.type_.precedence() >= 1),
    {
        token.type_.precedence_level() >= 1
    }

    /// The precedence of this kind of token.
    pub fn precedence_level(&self) -> (r: i8)
        ensures
            r == self.precedence(),
    {
        match self {
            TokenType::Bang => 0,
            TokenType::EqualEqual
            | TokenType::GreaterEqual
            | TokenType::LessEqual
            | TokenType::BangEqual
            | TokenType::Less
            | TokenType::Greater => 1,
            TokenType::PlusEqual
            | TokenType::SlashEqual
            | TokenType::ModulusEqual
            | TokenType::Equal
            | TokenType::AsteriskEqual
            | TokenType::MinusEqual => 2,
            TokenType::Plus | TokenType::And | TokenType::Or | TokenType::Minus => 3,
            TokenType::Asterisk | TokenType::Modulus | TokenType::Slash => 4,
            TokenType::AsteriskAsterisk => 5,
            _ => -1,
        }
    }
}

/// The value that a literal token carries.
///
/// A float is held as its decimal text, exactly as it was written: digits, a
/// point, digits.
#[derive(Debug, PartialEq, Eq)]
pub enum PieValue {
    FloatLiteral(String),
    IntegerLiteral(i64),
    StringLiteral(String),
    FormatStringLiteral(String),
}

/// What a [`PieValue`] stands for.
pub enum ValueView {
    FloatLiteral(Seq<char>),
    IntegerLiteral(i64),
    StringLiteral(Seq<char>),
    FormatStringLiteral(Seq<char>),
}

impl View for PieValue {
    type V = ValueView;

    open spec fn view(&self) -> ValueView {
        match self {
            PieValue::FloatLiteral(s) => ValueView::FloatLiteral(s@),
            PieValue::IntegerLiteral(i) => ValueView::IntegerLiteral(*i),
            PieValue::StringLiteral(s) => ValueView::StringLiteral(s@),
            PieValue::FormatStringLiteral(s) => ValueView::FormatStringLiteral(s@),
        }
    }
}

impl Clone for PieValue {
    fn clone(&self) -> (r: Self)
        ensures
            r == *self,
    {
        match self {
            PieValue::FloatLiteral(s) => PieValue::FloatLiteral(s.clone()),
            PieValue::IntegerLiteral(i) => PieValue::IntegerLiteral(*i),
            PieValue::StringLiteral(s) => PieValue::StringLiteral(s.clone()),
            PieValue::FormatStringLiteral(s) => PieValue::FormatStringLiteral(s.clone()),
        }
    }
}

/// The smallest unit of a script that has a meaning.
#[derive(Debug, PartialEq, Eq)]
pub struct PieToken {
    /// The kind of the token.
    pub type_: TokenType,
    /// The text of the script that the token was matched on.
    pub lexeme: String,
    /// The value, where the token is a literal.
    pub value: Option<PieValue>,
}

/// What a [`PieToken`] stands for.
pub struct TokenView {
    pub kind: TokenType,
    pub lexeme: Seq<char>,
    pub value: Option<ValueView>,
}

/// The view of a value that may be absent.
pub open spec fn value_view(value: Option<PieValue>) -> Option<ValueView> {
    match value {
        Some(v) => Some(v@),
        None => None,
    }
}

/// The token that ends every stream: of kind `Eof`, with no text and no value.
pub open spec fn eof_token() -> TokenView {
    TokenView { kind: TokenType::Eof, lexeme: Seq::empty(), value: None }
}

impl View for PieToken {
    type V = TokenView;

    open spec fn view(&self) -> TokenView {
        TokenView { kind: self.type_, lexeme: self.lexeme@, value: value_view(self.value) }
    }
}

impl Clone for PieToken {
    fn clone(&self) -> (r: Self)
        ensures
            r == *self,
    {
        let value = match &self.value {
            Some(v) => Some(v.clone()),
            None => None,
        };
        PieToken { type_: self.type_, lexeme: self.lexeme.clone(), value }
    }
}

impl PieToken {
    /// A token of the given kind, text and value.
    pub fn new(type_: TokenType, lexeme: &str, value: Option<PieValue>) -> (r: Self)
        ensures
            r@ == (TokenView { kind: type_, lexeme: lexeme@, value: value_view(value) }),
            r.type_ == type_,
            r.value == value,
    {
        PieToken { type_, lexeme: lexeme.to_owned(), value }
    }

    /// The token that ends a stream.
    pub fn eof() -> (r: Self)
        ensures
            r@ == eof_token(),
    {
        proof {
            reveal_strlit("");
        }
        let r = PieToken::new(TokenType::Eof, "", None);
        assert(r@.lexeme =~= Seq::<char>::empty());
        r
    }
}

/// The views of the tokens of a list, in order.
pub open spec fn token_views(tokens: Seq<PieToken>) -> Seq<TokenView> {
    Seq::new(tokens.len(), |i: int| tokens[i]@)
}

/// The token at the front of what remains of a stream. When nothing remains,
/// that is the end-of-stream token.
pub open spec fn front(remaining: Seq<TokenView>) -> TokenView {
    if remaining.len() > 0 {
        remaining[0]
    } else {
        eof_token()
    }
}

/// Whether a stream has come to its end: the token at its front is of kind
/// `Eof`.
pub open spec fn at_end(remaining: Seq<TokenView>) -> bool {
    front(remaining).kind == TokenType::Eof
}

/// What remains of a stream once its front token has been taken. The
/// end-of-stream token is never taken away.
pub open spec fn advance(remaining: Seq<TokenView>) -> Seq<TokenView> {
    if at_end(remaining) {
        remaining
    } else {
        remaining.drop_first()
    }
}

/// Something that is read from front to end.
pub trait CanBeEof {
    /// Whether everything has been read.
    spec fn exhausted(&self) -> bool;

    /// Tells whether everything has been read.
    fn is_eof(&self) -> (r: bool)
        ensures
            r == self.exhausted(),
    ;
}

/// A stream of tokens that is read from the front. Its view is the sequence of
/// tokens that have not been taken yet.
pub struct PieTokenStream {
    tokens: Vec<PieToken>,
    position: usize,
    end: PieToken,
}

impl View for PieTokenStream {
    type V = Seq<TokenView>;

    closed spec fn view(&self) -> Seq<TokenView> {
        token_views(self.tokens@.subrange(self.position as int, self.tokens.len() as int))
    }
}

impl CanBeEof for PieTokenStream {
    open spec fn exhausted(&self) -> bool {
        at_end(self@)
    }

    fn is_eof(&self) -> (r: bool) {
        self.is_eof_internal()
    }
}

impl PieTokenStream {
    #[verifier::type_invariant]
    spec fn well_formed(&self) -> bool {
        &&& self.position <= self.tokens.len()
        &&& self.end@ == eof_token()
    }

    /// A stream that will yield the given tokens in order, up to the first
    /// end-of-stream token among them.
    pub fn from(tokens: Vec<PieToken>) -> (r: Self)
        ensures
            r@ == token_views(tokens@),
    {
        let r = PieTokenStream { tokens, position: 0, end: PieToken::eof() };
        assert(r.tokens@.subrange(0, r.tokens.len() as int) =~= r.tokens@);
        r
    }

    /// Whether only the end of the stream remains.
    pub fn is_eof_internal(&self) -> (r: bool)
        ensures
            r == at_end(self@),
    {
        proof {
            use_type_invariant(self);
        }
        self.position >= self.tokens.len() || self.tokens[self.position].type_ == TokenType::Eof
    }

    /// Takes the token at the front of the stream. At the end of the stream
    /// the end-of-stream token is returned, and the stream stays as it is.
    pub fn next_token(&mut self) -> (r: PieToken)
        ensures
            r@ == front(old(self)@),
            final(self)@ == advance(old(self)@),
    {
        proof {
            use_type_invariant(&*self);
        }
        if self.position < self.tokens.len() {
            let token = self.tokens[self.position].clone();
            if token.type_ != TokenType::Eof {
                self.position = self.position + 1;
                assert(self@ =~= old(self)@.drop_first());
            }
            token
        } else {
            self.end.clone()
        }
    }

    /// The token at the front of the stream, which stays where it is.
    pub fn peek(&self) -> (r: &PieToken)
        ensures
            r@ == front(self@),
    {
        proof {
            use_type_invariant(self);
        }
        if self.position < self.tokens.len() {
            &self.tokens[self.position]
        } else {
            &self.end
        }
    }
}

/// Why a source text could not be turned into tokens. The line and the column
/// are the scanner's counters at the moment it gave up, after it had consumed
/// what it could not make a token of.
#[derive(Clone, Copy, Debug, PartialEq, Eq, Structural)]
pub enum LexError {
    /// A character with which no token begins.
    UnexpectedCharacter { ch: char, line: usize, column: usize },
    /// A string literal whose closing quote is missing.
    UnterminatedString { line: usize, column: usize },
    /// An integer literal that does not fit in 64 bits.
    MalformedNumber { line: usize, column: usize },
}

impl LexError {
    /// The message for this error.
    pub open spec fn message_text(self) -> Seq<char> {
        match self {
            LexError::UnexpectedCharacter { ch, line, column } => "Unexpected: "@.push(ch)
                + " at: "@ + decimal_digits(line as nat) + ":"@ + decimal_digits(column as nat),
            LexError::UnterminatedString { line, column } => "Unterminated string at: "@
                + decimal_digits(line as nat) + ":"@ + decimal_digits(column as nat),
            LexError::MalformedNumber { line, column } => "Malformed number at: "@
                + decimal_digits(line as nat) + ":"@ + decimal_digits(column as nat),
        }
    }

    /// Describes the error in one line.
    pub fn message(&self) -> (r: String)
        ensures
            r@ == self.message_text(),
    {
        let (mut out, line, column) = match self {
            LexError::UnexpectedCharacter { ch, line, column } => {
                let mut out = String::from_str("Unexpected: ");
                out.push(*ch);
                out.append(" at: ");
                (out, *line, *column)
            },
            LexError::UnterminatedString { line, column } => (
                String::from_str("Unterminated string at: "),
                *line,
                *column,
            ),
            LexError::MalformedNumber { line, column } => (
                String::from_str("Malformed number at: "),
                *line,
                *column,
            ),
        };
        out.append(render_unsigned(line as u64).as_str());
        out.append(":");
        out.append(render_unsigned(column as u64).as_str());
        out
    }
}

/// A window on the source text: a left and a right offset, counted in
/// characters, with the left one never beyond the right one. The cursor
/// holds the characters of the text, so that it reads one in constant time.
pub struct Cursor<'a> {
    source: &'a str,
    chars: Vec<char>,
    left: usize,
    right: usize,
}

impl<'a> CanBeEof for Cursor<'a> {
    open spec fn exhausted(&self) -> bool {
        self.right_index() >= self.text().len()
    }

    fn is_eof(&self) -> (r: bool) {
        self.is_eof_internal()
    }
}

impl<'a> Cursor<'a> {
    #[verifier::type_invariant]
    spec fn well_formed(&self) -> bool {
        &&& self.chars@ == self.source@
        &&& self.left <= self.right
    }

    /// The text that the cursor moves over.
    pub closed spec fn text(&self) -> Seq<char> {
        self.source@
    }

    /// The left offset: where the window begins.
    pub closed spec fn left_index(&self) -> int {
        self.left as int
    }

    /// The right offset: where the window ends, and the place of the current
    /// character.
    pub closed spec fn right_index(&self) -> int {
        self.right as int
    }

    /// A cursor at the start of `source`, with an empty window.
    pub fn new(source: &'a str) -> (r: Self)
        ensures
            r.text() == source@,
            r.left_index() == 0,
            r.right_index() == 0,
    {
        Cursor { source, chars: characters(source), left: 0, right: 0 }
    }

    /// Moves the left offset one character on.
    pub fn advance_left(&mut self)
        requires
            old(self).left_index() < old(self).right_index(),
        ensures
            final(self).text() == old(self).text(),
            final(self).left_index() == old(self).left_index() + 1,
            final(self).right_index() == old(self).right_index(),
    {
        proof {
            use_type_invariant(&*self);
        }
        self.left = self.left + 1;
    }

    /// Closes the window: the left offset moves up to the right one.
    pub fn advance_left_to_right(&mut self)
        ensures
            final(self).text() == old(self).text(),
            final(self).left_index() == old(self).right_index(),
            final(self).right_index() == old(self).right_index(),
    {
        proof {
            use_type_invariant(&*self);
        }
        self.left = self.right;
    }

    /// Moves the right offset one character on.
    pub fn advance_right(&mut self)
        requires
            old(self).right_index() < usize::MAX,
        ensures
            final(self).text() == old(self).text(),
            final(self).left_index() == old(self).left_index(),
            final(self).right_index() == old(self).right_index() + 1,
    {
        proof {
            use_type_invariant(&*self);
        }
        self.right = self.right + 1;
    }

    /// The character at the right offset, if the text reaches that far.
    pub fn current(&self) -> (r: Option<char>)
        ensures
            r == (if self.right_index() < self.text().len() {
                Some(self.text()[self.right_index()])
            } else {
                None
            }),
    {
        proof {
            use_type_invariant(self);
        }
        if self.right < self.chars.len() {
            Some(self.chars[self.right])
        } else {
            None
        }
    }

    /// The character that follows the current one, if the text reaches that
    /// far.
    pub fn following(&self) -> (r: Option<char>)
        ensures
            r == (if self.right_index() + 1 < self.text().len() {
                Some(self.text()[self.right_index() + 1])
            } else {
                None
            }),
    {
        proof {
            use_type_invariant(self);
        }
        if self.right < self.chars.len() && self.right + 1 < self.chars.len() {
            Some(self.chars[self.right + 1])
        } else {
            None
        }
    }

    /// Whether the right offset has reached the end of the text.
    pub fn is_eof_internal(&self) -> (r: bool)
        ensures
            r == (self.right_index() >= self.text().len()),
    {
        proof {
            use_type_invariant(self);
        }
        self.right >= self.chars.len()
    }

    /// The text inside the window.
    pub fn capture(&self) -> (r: String)
        requires
            self.right_index() <= self.text().len(),
        ensures
            0 <= self.left_index() <= self.right_index(),
            r@ == self.text().subrange(self.left_index(), self.right_index()),
    {
        proof {
            use_type_invariant(self);
        }
        let mut lexeme = String::new();
        let mut i = self.left;
        assert(lexeme@ =~= self.chars@.subrange(self.left as int, i as int));
        while i < self.right
            invariant
                self.left <= i <= self.right <= self.chars.len(),
                lexeme@ == self.chars@.subrange(self.left as int, i as int),
            decreases self.right - i,
        {
            lexeme.push(self.chars[i]);
            i = i + 1;
            assert(lexeme@ =~= self.chars@.subrange(self.left as int, i as int));
        }
        lexeme
    }
}

/// The table of reserved words.
pub struct KeywordLookup {
    keyword_tokens: Vec<(String, TokenType)>,
}

impl KeywordLookup {
    /// The entries of the table: each word with the kind of token it makes.
    pub closed spec fn entries(&self) -> Seq<(Seq<char>, TokenType)> {
        Seq::new(
            self.keyword_tokens.len() as nat,
            |i: int| (self.keyword_tokens[i].0@, self.keyword_tokens[i].1),
        )
    }

    /// The table of the language's reserved words.
    pub fn create() -> (r: Self)
        ensures
            r.entries() == keyword_table(),
    {
        let mut map: Vec<(String, TokenType)> = Vec::new();
        map.push(("enum".to_owned(), TokenType::Enum));
        map.push(("endenum".to_owned(), TokenType::EndEnum));
        map.push(("struct".to_owned(), TokenType::Struct));
        map.push(("endstruct".to_owned(), TokenType::EndStruct));
        map.push(("if".to_owned(), TokenType::If));
        map.push(("then".to_owned(), TokenType::Then));
        map.push(("endif".to_owned(), TokenType::EndIf));
        map.push(("else".to_owned(), TokenType::Else));
        map.push(("def".to_owned(), TokenType::Def));
        map.push(("enddef".to_owned(), TokenType::EndDef));
        map.push(("for".to_owned(), TokenType::For));
        map.push(("do".to_owned(), TokenType::Do));
        map.push(("done".to_owned(), TokenType::Done));
        map.push(("while".to_owned(), TokenType::While));
        map.push(("true".to_owned(), TokenType::True));
        map.push(("false".to_owned(), TokenType::False));
        map.push(("return".to_owned(), TokenType::Return));
        map.push(("break".to_owned(), TokenType::Break));
        map.push(("continue".to_owned(), TokenType::Continue));
        map.push(("use".to_owned(), TokenType::Use));
        map.push(("type".to_owned(), TokenType::TypeAlias));
        let r = KeywordLookup { keyword_tokens: map };
        assert(r.entries() =~= keyword_table());
        r
    }

    /// The kind of token that a word makes, if the word is reserved.
    pub fn get(&self, lexeme: &String) -> (r: Option<TokenType>)
        ensures
            r == lookup(self.entries(), lexeme@),
    {
        let mut i: usize = 0;
        assert(self.entries().subrange(0, self.entries().len() as int) =~= self.entries());
        while i < self.keyword_tokens.len()
            invariant
                i <= self.keyword_tokens.len(),
                self.entries().len() == self.keyword_tokens.len(),
                lookup(self.entries(), lexeme@) == lookup(
                    self.entries().subrange(i as int, self.entries().len() as int),
                    lexeme@,
                ),
            decreases self.keyword_tokens.len() - i,
        {
            let ghost rest = self.entries().subrange(i as int, self.entries().len() as int);
            assert(rest[0] == self.entries()[i as int]);
            assert(rest.drop_first() =~= self.entries().subrange(
                i + 1,
                self.entries().len() as int,
            ));
            if self.keyword_tokens[i].0 == *lexeme {
                return Some(self.keyword_tokens[i].1);
            }
            i = i + 1;
        }
        proof {
            assert(self.entries().subrange(i as int, self.entries().len() as int).len() == 0);
        }
        None
    }
}

/// The operator that two characters make together, if they make one.
pub fn digraph_token(first: char, second: char) -> (r: Option<TokenType>)
    ensures
        r == digraph_kind(first, second),
{
    if first == '+' && second == '=' {
        Some(TokenType::PlusEqual)
    } else if first == '-' && second == '=' {
        Some(TokenType::MinusEqual)
    } else if first == '-' && second == '>' {
        Some(TokenType::RightArrow)
    } else if first == '*' && second == '=' {
        Some(TokenType::AsteriskEqual)
    } else if first == '*' && second == '*' {
        Some(TokenType::AsteriskAsterisk)
    } else if first == '/' && second == '=' {
        Some(TokenType::SlashEqual)
    } else if first == '%' && second == '=' {
        Some(TokenType::ModulusEqual)
    } else if first == '=' && second == '=' {
        Some(TokenType::EqualEqual)
    } else if first == '!' && second == '=' {
        Some(TokenType::BangEqual)
    } else if first == '<' && second == '=' {
        Some(TokenType::LessEqual)
    } else if first == '>' && second == '=' {
        Some(TokenType::GreaterEqual)
    } else if first == '&' && second == '&' {
        Some(TokenType::And)
    } else if first == '|' && second == '|' {
        Some(TokenType::Or)
    } else if first == ':' && second == ':' {
        Some(TokenType::ScopeOperator)
    } else if first == '.' && second == '.' {
        Some(TokenType::DotDot)
    } else {
        None
    }
}

/// The operator or punctuation mark that one character makes alone, if it
/// makes one.
pub fn single_token(c: char) -> (r: Option<TokenType>)
    ensures
        r == single_kind(c),
{
    match c {
        '+' => Some(TokenType::Plus),
        '-' => Some(TokenType::Minus),
        '*' => Some(TokenType::Asterisk),
        '/' => Some(TokenType::Slash),
        '%' => Some(TokenType::Modulus),
        '@' => Some(TokenType::At),
        '!' => Some(TokenType::Bang),
        '=' => Some(TokenType::Equal),
        '<' => Some(TokenType::Less),
        '>' => Some(TokenType::Greater),
        '.' => Some(TokenType::Dot),
        ',' => Some(TokenType::Comma),
        '(' => Some(TokenType::LeftParen),
        ')' => Some(TokenType::RightParen),
        '[' => Some(TokenType::LeftBracket),
        ']' => Some(TokenType::RightBracket),
        '{' => Some(TokenType::LeftBrace),
        '}' => Some(TokenType::RightBrace),
        '_' => Some(TokenType::Underscore),
        ':' => Some(TokenType::Colon),
        _ => None,
    }
}

/// The scanner: a cursor on the source text, the line and column counters, and
/// the tokens made so far.
pub struct Lexer<'a> {
    cursor: Cursor<'a>,
    line: usize,
    column: usize,
    token_list: Vec<PieToken>,
    keywords: KeywordLookup,
}

impl<'a> Lexer<'a> {
    /// The scanner's invariant: it stands inside the text, and neither
    /// counter is ahead of it.
    pub closed spec fn valid(&self) -> bool {
        &&& self.cursor.chars@ == self.cursor.source@
        &&& self.cursor.left <= self.cursor.right
        &&& self.cursor.right <= self.cursor.chars.len()
        &&& self.line <= self.cursor.right
        &&& self.column <= self.cursor.right
        &&& self.keywords.entries() == keyword_table()
    }

    /// The source text.
    pub closed spec fn text(&self) -> Seq<char> {
        self.cursor.text()
    }

    /// The place in the text that the scanner has reached.
    pub closed spec fn position(&self) -> int {
        self.cursor.right_index()
    }

    /// The place in the text where the token that is being matched begins.
    pub closed spec fn token_start(&self) -> int {
        self.cursor.left_index()
    }

    /// The line counter.
    pub closed spec fn line_count(&self) -> int {
        self.line as int
    }

    /// The column counter.
    pub closed spec fn column_count(&self) -> int {
        self.column as int
    }

    /// The tokens made so far.
    pub closed spec fn tokens(&self) -> Seq<TokenView> {
        token_views(self.token_list@)
    }

    /// A scanner at the start of `source`, with both counters at zero and no
    /// token made.
    pub fn new(source: &'a str) -> (r: Self)
        ensures
            r.valid(),
            r.text() == source@,
            r.position() == 0,
            r.token_start() == 0,
            r.line_count() == 0,
            r.column_count() == 0,
            r.tokens() == Seq::<TokenView>::empty(),
    {
        let r = Lexer {
            cursor: Cursor::new(source),
            line: 0,
            column: 0,
            token_list: Vec::new(),
            keywords: KeywordLookup::create(),
        };
        proof {
            use_type_invariant(&r.cursor);
        }
        assert(r.tokens() =~= Seq::<TokenView>::empty());
        r
    }

    /// The tokens made so far.
    pub fn into_tokens(self) -> (r: Vec<PieToken>)
        ensures
            token_views(r@) == self.tokens(),
    {
        self.token_list
    }

    fn has_next(&self) -> (r: bool)
        requires
            self.valid(),
        ensures
            r == (self.position() < self.text().len()),
            0 <= self.token_start() <= self.position() <= self.text().len(),
    {
        proof {
            use_type_invariant(&self.cursor);
        }
        !self.cursor.is_eof()
    }

    fn peek(&self) -> (r: Option<char>)
        requires
            self.valid(),
        ensures
            r == (if self.position() < self.text().len() {
                Some(self.text()[self.position()])
            } else {
                None
            }),
    {
        self.cursor.current()
    }

    fn match_peek(&self, to_match: char) -> (r: bool)
        requires
            self.valid(),
        ensures
            r == (self.position() < self.text().len() && self.text()[self.position()] == to_match),
    {
        match self.peek() {
            Some(ch) => to_match == ch,
            None => false,
        }
    }

    /// Consumes the current character. At the end of the text there is none,
    /// and nothing moves.
    fn next(&mut self) -> (r: Option<char>)
        requires
            old(self).valid(),
        ensures
            final(self).valid(),
            final(self).text() == old(self).text(),
            final(self).token_start() == old(self).token_start(),
            final(self).tokens() == old(self).tokens(),
            final(self).line_count() == old(self).line_count(),
            old(self).position() < old(self).text().len() ==> {
                &&& r == Some(old(self).text()[old(self).position()])
                &&& final(self).position() == old(self).position() + 1
                &&& final(self).column_count() == old(self).column_count() + 1
            },
            old(self).position() >= old(self).text().len() ==> {
                &&& r is None
                &&& final(self).position() == old(self).position()
                &&& final(self).column_count() == old(self).column_count()
            },
    {
        proof {
            use_type_invariant(&self.cursor);
        }
        let next_char = self.cursor.current();
        if next_char.is_some() {
            self.cursor.advance_right();
            proof {
                use_type_invariant(&self.cursor);
            }
            self.column = self.column + 1;
        }
        next_char
    }

    /// Makes a token of the text in the cursor's window.
    fn add_token(&mut self, type_: TokenType, value: Option<PieValue>)
        requires
            old(self).valid(),
        ensures
            final(self).valid(),
            final(self).text() == old(self).text(),
            final(self).token_start() == old(self).token_start(),
            final(self).position() == old(self).position(),
            final(self).line_count() == old(self).line_count(),
            final(self).column_count() == old(self).column_count(),
            final(self).tokens() == old(self).tokens().push(
                TokenView {
                    kind: type_,
                    lexeme: old(self).text().subrange(
                        old(self).token_start(),
                        old(self).position(),
                    ),
                    value: value_view(value),
                },
            ),
    {
        let lexeme = self.cursor.capture();
        let token = PieToken::new(type_, lexeme.as_str(), value);
        self.token_list.push(token);
        assert(self.tokens() =~= old(self).tokens().push(token@));
    }

    /// Matches one rule at the scanner's place, which lies inside the text and
    /// at which the cursor's window is closed.
    fn scan_token(&mut self) -> (r: Result<(), LexError>)
        requires
            old(self).valid(),
            old(self).position() < old(self).text().len(),
            old(self).token_start() == old(self).position(),
        ensures
            final(self).valid(),
            final(self).text() == old(self).text(),
            final(self).token_start() == old(self).token_start(),
            match scan_at(old(self).text(), old(self).position()) {
                Scan::Blank => {
                    &&& r is Ok
                    &&& final(self).tokens() == old(self).tokens()
                    &&& final(self).position() == old(self).position() + 1
                    &&& final(self).line_count() == old(self).line_count()
                    &&& final(self).column_count() == old(self).column_count() + 1
                },
                Scan::LineBreak => {
                    &&& r is Ok
                    &&& final(self).tokens() == old(self).tokens()
                    &&& final(self).position() == old(self).position() + 1
                    &&& final(self).line_count() == old(self).line_count() + 1
                    &&& final(self).column_count() == 1
                },
                Scan::Token { kind, value, end } => {
                    &&& r is Ok
                    &&& final(self).tokens() == old(self).tokens().push(
                        TokenView {
                            kind,
                            lexeme: old(self).text().subrange(old(self).position(), end),
                            value,
                        },
                    )
                    &&& final(self).position() == end
                    &&& final(self).line_count() == old(self).line_count()
                    &&& final(self).column_count() == old(self).column_count() + (end
                        - old(self).position())
                },
                Scan::Unterminated => r == Err::<(), LexError>(
                    LexError::UnterminatedString {
                        line: counter(old(self).line_count()),
                        column: counter(
                            old(self).column_count() + (old(self).text().len() - old(
                                self,
                            ).position()),
                        ),
                    },
                ),
                Scan::Overflow { end } => r == Err::<(), LexError>(
                    LexError::MalformedNumber {
                        line: counter(old(self).line_count()),
                        column: counter(old(self).column_count() + (end - old(self).position())),
                    },
                ),
                Scan::Unexpected { ch } => r == Err::<(), LexError>(
                    LexError::UnexpectedCharacter {
                        ch,
                        line: counter(old(self).line_count()),
                        column: counter(old(self).column_count() + 1),
                    },
                ),
            },
    {
        let ch = self.next();
        let c = ch.unwrap();
        if c == ' ' || c == '\r' || c == '\t' {
            return Ok(());
        }
        if c == '\n' {
            self.line = self.line + 1;
            self.column = 1;
            return Ok(());
        }
        let double = match self.peek() {
            Some(second) => digraph_token(c, second),
            None => None,
        };
        if let Some(kind) = double {
            self.next();
            self.add_token(kind, None);
            return Ok(());
        }
        if let Some(kind) = single_token(c) {
            self.add_token(kind, None);
            return Ok(());
        }
        if is_letter(c) {
            self.scan_keyword();
            Ok(())
        } else if is_decimal_digit(c) {
            self.scan_numeric()
        } else if c == '"' {
            self.scan_string()
        } else {
            Err(LexError::UnexpectedCharacter { ch: c, line: self.line, column: self.column })
        }
    }

    /// Matches the rest of a string literal whose opening quote has just been
    /// consumed.
    fn scan_string(&mut self) -> (r: Result<(), LexError>)
        requires
            old(self).valid(),
            old(self).position() == old(self).token_start() + 1,
        ensures
            final(self).valid(),
            final(self).text() == old(self).text(),
            final(self).token_start() == old(self).token_start(),
            final(self).line_count() == old(self).line_count(),
            ({
                let text = old(self).text();
                let start = old(self).token_start();
                let close = quote_from(text, start + 1);
                if close < text.len() {
                    &&& r is Ok
                    &&& final(self).position() == close + 1
                    &&& final(self).column_count() == old(self).column_count() + (close - start)
                    &&& final(self).tokens() == old(self).tokens().push(
                        TokenView {
                            kind: TokenType::String,
                            lexeme: text.subrange(start, close + 1),
                            value: Some(ValueView::StringLiteral(text.subrange(start + 1, close))),
                        },
                    )
                } else {
                    r == Err::<(), LexError>(
                        LexError::UnterminatedString {
                            line: counter(old(self).line_count()),
                            column: counter(old(self).column_count() + (text.len() - start - 1)),
                        },
                    )
                }
            }),
    {
        let ghost text = self.text();
        let ghost start = self.token_start();
        proof {
            lemma_quote_from(text, start + 1);
        }
        while self.has_next() && self.peek().unwrap() != '"'
            invariant
                self.valid(),
                self.text() == text,
                self.token_start() == start,
                self.tokens() == old(self).tokens(),
                self.line_count() == old(self).line_count(),
                start + 1 <= self.position() <= text.len(),
                self.column_count() == old(self).column_count() + (self.position() - start - 1),
                quote_from(text, self.position()) == quote_from(text, start + 1),
            decreases text.len() - self.position(),
        {
            self.next();
        }
        if !self.has_next() {
            return Err(LexError::UnterminatedString { line: self.line, column: self.column });
        }
        self.next();
        let lexeme = self.cursor.capture();
        let inner = lexeme.as_str().substring_char(1, lexeme.as_str().unicode_len() - 1);
        let value = PieValue::StringLiteral(inner.to_owned());
        let token = PieToken::new(TokenType::String, lexeme.as_str(), Some(value));
        self.token_list.push(token);
        proof {
            let close = quote_from(text, start + 1);
            assert(inner@ =~= text.subrange(start + 1, close));
            assert(self.tokens() =~= old(self).tokens().push(token@));
        }
        Ok(())
    }

    /// Consumes the digits at the scanner's place.
    fn skip_digits(&mut self)
        requires
            old(self).valid(),
        ensures
            final(self).valid(),
            final(self).text() == old(self).text(),
            final(self).token_start() == old(self).token_start(),
            final(self).tokens() == old(self).tokens(),
            final(self).line_count() == old(self).line_count(),
            final(self).position() == digits_end(old(self).text(), old(self).position()),
            final(self).column_count() == old(self).column_count() + (final(self).position() - old(
                self,
            ).position()),
            old(self).position() <= final(self).position() <= old(self).text().len(),
    {
        let ghost text = self.text();
        let ghost from = self.position();
        while self.has_next() && is_decimal_digit(self.peek().unwrap())
            invariant
                self.valid(),
                self.text() == text,
                self.token_start() == old(self).token_start(),
                self.tokens() == old(self).tokens(),
                self.line_count() == old(self).line_count(),
                0 <= from <= self.position() <= text.len(),
                self.column_count() == old(self).column_count() + (self.position() - from),
                digits_end(text, self.position()) == digits_end(text, from),
            decreases text.len() - self.position(),
        {
            self.next();
        }
    }

    /// Matches the rest of a number whose first digit has just been consumed.
    fn scan_numeric(&mut self) -> (r: Result<(), LexError>)
        requires
            old(self).valid(),
            old(self).position() == old(self).token_start() + 1,
            is_digit(old(self).text()[old(self).token_start()]),
        ensures
            final(self).valid(),
            final(self).text() == old(self).text(),
            final(self).token_start() == old(self).token_start(),
            final(self).line_count() == old(self).line_count(),
            ({
                let text = old(self).text();
                let start = old(self).token_start();
                match rules::scan_number(text, start) {
                    Scan::Token { kind, value, end } => {
                        &&& r is Ok
                        &&& final(self).position() == end
                        &&& final(self).column_count() == old(self).column_count() + (end - start
                            - 1)
                        &&& final(self).tokens() == old(self).tokens().push(
                            TokenView { kind, lexeme: text.subrange(start, end), value },
                        )
                    },
                    Scan::Overflow { end } => r == Err::<(), LexError>(
                        LexError::MalformedNumber {
                            line: counter(old(self).line_count()),
                            column: counter(old(self).column_count() + (end - start - 1)),
                        },
                    ),
                    _ => false,
                }
            }),
    {
        let ghost text = self.text();
        let ghost start = self.token_start();
        proof {
            use_type_invariant(&self.cursor);
        }
        self.skip_digits();
        let point = self.match_peek('.');
        let fraction = match self.cursor.following() {
            Some(c) => is_decimal_digit(c),
            None => false,
        };
        if point && fraction {
            self.next();
            self.skip_digits();
            let lexeme = self.cursor.capture();
            let value = PieValue::FloatLiteral(lexeme.clone());
            let token = PieToken::new(TokenType::Float, lexeme.as_str(), Some(value));
            self.token_list.push(token);
            proof {
                assert(self.tokens() =~= old(self).tokens().push(token@));
            }
            return Ok(());
        }
        let lexeme = self.cursor.capture();
        match parse_decimal(lexeme.as_str()) {
            Some(v) => {
                let token = PieToken::new(
                    TokenType::Integer,
                    lexeme.as_str(),
                    Some(PieValue::IntegerLiteral(v)),
                );
                self.token_list.push(token);
                proof {
                    assert(self.tokens() =~= old(self).tokens().push(token@));
                }
                Ok(())
            },
            None => {
                Err(LexError::MalformedNumber { line: self.line, column: self.column })
            },
        }
    }

    /// Matches the rest of a word whose first letter has just been consumed.
    fn scan_keyword(&mut self)
        requires
            old(self).valid(),
            old(self).position() == old(self).token_start() + 1,
        ensures
            final(self).valid(),
            final(self).text() == old(self).text(),
            final(self).token_start() == old(self).token_start(),
            final(self).line_count() == old(self).line_count(),
            ({
                let text = old(self).text();
                let start = old(self).token_start();
                let end = word_end(text, start + 1);
                &&& final(self).position() == end
                &&& final(self).column_count() == old(self).column_count() + (end - start - 1)
                &&& final(self).tokens() == old(self).tokens().push(
                    TokenView {
                        kind: word_kind(text.subrange(start, end)),
                        lexeme: text.subrange(start, end),
                        value: None,
                    },
                )
            }),
    {
        let ghost text = self.text();
        let ghost start = self.token_start();
        while self.has_next() && is_letter_or_number(self.peek().unwrap())
            invariant
                self.valid(),
                self.text() == text,
                self.token_start() == start,
                self.tokens() == old(self).tokens(),
                self.line_count() == old(self).line_count(),
                start + 1 <= self.position() <= text.len(),
                self.column_count() == old(self).column_count() + (self.position() - start - 1),
                word_end(text, self.position()) == word_end(text, start + 1),
            decreases text.len() - self.position(),
        {
            self.next();
        }
        let lexeme = self.cursor.capture();
        match self.keywords.get(&lexeme) {
            Some(kw) => self.add_token(kw, None),
            None => self.add_token(TokenType::Identifier, None),
        }
    }

    /// Scans the text from the scanner's place to its end and adds the tokens
    /// found, then the end-of-stream token. Stops at the first error.
    pub fn tokenize(&mut self) -> (r: Result<(), LexError>)
        requires
            old(self).valid(),
        ensures
            final(self).valid(),
            final(self).text() == old(self).text(),
            match tokens_from(
                old(self).text(),
                old(self).position(),
                old(self).line_count(),
                old(self).column_count(),
            ) {
                Ok(found) => {
                    &&& r is Ok
                    &&& final(self).tokens() == old(self).tokens() + found
                    &&& final(self).position() == old(self).text().len()
                },
                Err(e) => r == Err::<(), LexError>(e),
            },
    {
        let ghost text = self.text();
        let ghost goal = tokens_from(text, self.position(), self.line_count(), self.column_count());
        let ghost before = self.tokens();
        self.cursor.advance_left_to_right();
        proof {
            use_type_invariant(&self.cursor);
            assert(self.tokens() =~= before + Seq::<TokenView>::empty());
            assert(goal == prepend(Seq::<TokenView>::empty(), goal)) by {
                if let Ok(found) = goal {
                    assert(Seq::<TokenView>::empty() + found =~= found);
                }
            }
        }
        let ghost mut made = Seq::<TokenView>::empty();
        while self.peek().is_some()
            invariant
                self.valid(),
                self.text() == text,
                text == old(self).text(),
                before == old(self).tokens(),
                goal == tokens_from(
                    old(self).text(),
                    old(self).position(),
                    old(self).line_count(),
                    old(self).column_count(),
                ),
                self.token_start() == self.position(),
                0 <= self.position() <= text.len(),
                self.tokens() == before + made,
                goal == prepend(
                    made,
                    tokens_from(text, self.position(), self.line_count(), self.column_count()),
                ),
            decreases text.len() - self.position(),
        {
            let ghost pos = self.position();
            let ghost line = self.line_count();
            let ghost column = self.column_count();
            proof {
                lemma_scan_bounds(text, pos);
            }
            match self.scan_token() {
                Ok(()) => {},
                Err(e) => {
                    return Err(e);
                },
            }
            self.cursor.advance_left_to_right();
            proof {
                use_type_invariant(&self.cursor);
                if let Scan::Token { kind, value, end } = scan_at(text, pos) {
                    let token = TokenView { kind, lexeme: text.subrange(pos, end), value };
                    let rest = tokens_from(text, end, line, column + (end - pos));
                    let earlier = made;
                    made = made.push(token);
                    assert(self.tokens() =~= before + made);
                    assert(prepend(earlier, prepend(seq![token], rest)) == prepend(made, rest)) by {
                        if let Ok(found) = rest {
                            assert(earlier + (seq![token] + found) =~= made + found);
                        }
                    }
                }
            }
        }
        let ghost scanned = self.tokens();
        self.token_list.push(PieToken::eof());
        proof {
            assert(self.tokens() =~= scanned.push(eof_token()));
            assert(self.tokens() =~= before + (made + seq![eof_token()]));
        }
        Ok(())
    }
}

/// Turns a source text into a stream of tokens that ends with the
/// end-of-stream token, or gives the first thing in the text that is against
/// the lexical rules.
pub fn scan_all_tokens(source: &str) -> (r: Result<PieTokenStream, LexError>)
    ensures
        match tokenize(source@) {
            Ok(tokens) => r is Ok && r->Ok_0@ == tokens,
            Err(e) => r == Err::<PieTokenStream, LexError>(e),
        },
{
    let mut lexer = Lexer::new(source);
    match lexer.tokenize() {
        Ok(()) => {
            proof {
                let found = tokenize(source@)->Ok_0;
                assert(Seq::<TokenView>::empty() + found =~= found);
            }
            let token_stream = PieTokenStream::from(lexer.into_tokens());
            Ok(token_stream)
        },
        Err(e) => Err(e),
    }
}

} // verus!
