use nadra::lexer::{
    digraph_token, scan_all_tokens, single_token, CanBeEof, Cursor, KeywordLookup, LexError, Lexer,
    PieToken, PieTokenStream, PieValue, TokenType,
};

fn drain(mut stream: PieTokenStream) -> Vec<PieToken> {
    let mut out = Vec::new();
    loop {
        let token = stream.next_token();
        let done = token.type_ == TokenType::Eof;
        out.push(token);
        if done {
            return out;
        }
    }
}

fn kinds(source: &str) -> Vec<TokenType> {
    drain(scan_all_tokens(source).unwrap()).iter().map(|t| t.type_).collect()
}

#[test]
fn integer_literal_has_its_value() {
    let tokens = drain(scan_all_tokens("1234").unwrap());
    assert_eq!(tokens.len(), 2);
    assert_eq!(tokens[0].type_, TokenType::Integer);
    assert_eq!(tokens[0].lexeme, "1234");
    assert_eq!(tokens[0].value, Some(PieValue::IntegerLiteral(1234)));
    assert_eq!(tokens[1].type_, TokenType::Eof);
    assert_eq!(tokens[1].lexeme, "");
    assert_eq!(tokens[1].value, None);
}

#[test]
fn largest_integer_literal_fits() {
    let tokens = drain(scan_all_tokens("9223372036854775807").unwrap());
    assert_eq!(tokens[0].value, Some(PieValue::IntegerLiteral(i64::MAX)));
}

#[test]
fn integer_literal_too_large_is_malformed() {
    let r = scan_all_tokens("9223372036854775808");
    assert_eq!(r.err(), Some(LexError::MalformedNumber { line: 0, column: 19 }));
}

#[test]
fn string_literal_keeps_its_text() {
    let tokens = drain(scan_all_tokens("\"a\\nb c\"").unwrap());
    assert_eq!(tokens.len(), 2);
    assert_eq!(tokens[0].type_, TokenType::String);
    assert_eq!(tokens[0].lexeme, "\"a\\nb c\"");
    assert_eq!(tokens[0].value, Some(PieValue::StringLiteral("a\\nb c".to_string())));
}

#[test]
fn unterminated_string_is_an_error() {
    let r = scan_all_tokens("\"abc");
    assert_eq!(r.err(), Some(LexError::UnterminatedString { line: 0, column: 4 }));
}

#[test]
fn empty_source_is_only_end_of_stream() {
    assert_eq!(kinds(""), vec![TokenType::Eof]);
}

#[test]
fn character_outside_the_rules_is_named() {
    assert_eq!(
        scan_all_tokens("#").err(),
        Some(LexError::UnexpectedCharacter { ch: '#', line: 0, column: 1 })
    );
    assert_eq!(
        scan_all_tokens("a & b").err(),
        Some(LexError::UnexpectedCharacter { ch: '&', line: 0, column: 3 })
    );
    assert_eq!(
        scan_all_tokens("1\n2 ? 2").err(),
        Some(LexError::UnexpectedCharacter { ch: '?', line: 1, column: 4 })
    );
}

#[test]
fn at_signs_are_tokens() {
    assert_eq!(kinds("@@@"), vec![TokenType::At, TokenType::At, TokenType::At, TokenType::Eof]);
}

#[test]
fn float_needs_digits_after_the_point() {
    let tokens = drain(scan_all_tokens("3.25").unwrap());
    assert_eq!(tokens[0].type_, TokenType::Float);
    assert_eq!(tokens[0].value, Some(PieValue::FloatLiteral("3.25".to_string())));
    assert_eq!(kinds("0..10"), vec![TokenType::Integer, TokenType::DotDot, TokenType::Integer, TokenType::Eof]);
    assert_eq!(kinds("1."), vec![TokenType::Integer, TokenType::Dot, TokenType::Eof]);
}

#[test]
fn two_character_operators_win() {
    assert_eq!(
        kinds("+= -= *= /= %= == != <= >= && || :: .. -> **"),
        vec![
            TokenType::PlusEqual,
            TokenType::MinusEqual,
            TokenType::AsteriskEqual,
            TokenType::SlashEqual,
            TokenType::ModulusEqual,
            TokenType::EqualEqual,
            TokenType::BangEqual,
            TokenType::LessEqual,
            TokenType::GreaterEqual,
            TokenType::And,
            TokenType::Or,
            TokenType::ScopeOperator,
            TokenType::DotDot,
            TokenType::RightArrow,
            TokenType::AsteriskAsterisk,
            TokenType::Eof,
        ]
    );
}

#[test]
fn keywords_and_identifiers() {
    assert_eq!(
        kinds("def enddef iffy if then endif while do done use type x1"),
        vec![
            TokenType::Def,
            TokenType::EndDef,
            TokenType::Identifier,
            TokenType::If,
            TokenType::Then,
            TokenType::EndIf,
            TokenType::While,
            TokenType::Do,
            TokenType::Done,
            TokenType::Use,
            TokenType::TypeAlias,
            TokenType::Identifier,
            TokenType::Eof,
        ]
    );
}

#[test]
fn unterminated_string_reports_line_and_column() {
    let r = scan_all_tokens("a\nbc \"x");
    assert_eq!(r.err(), Some(LexError::UnterminatedString { line: 1, column: 6 }));
}

#[test]
fn cursor_moves_over_characters() {
    let mut cursor = Cursor::new("héllo");
    assert_eq!(cursor.current(), Some('h'));
    assert_eq!(cursor.following(), Some('é'));
    assert!(!cursor.is_eof());
    cursor.advance_right();
    cursor.advance_right();
    assert_eq!(cursor.capture(), "hé");
    assert_eq!(cursor.current(), Some('l'));
    cursor.advance_left();
    assert_eq!(cursor.capture(), "é");
    cursor.advance_left_to_right();
    assert_eq!(cursor.capture(), "");
    cursor.advance_right();
    cursor.advance_right();
    cursor.advance_right();
    assert_eq!(cursor.capture(), "llo");
    assert_eq!(cursor.current(), None);
    assert_eq!(cursor.following(), None);
    assert!(cursor.is_eof());
    assert!(cursor.is_eof_internal());
}

#[test]
fn keyword_table_knows_the_reserved_words() {
    let table = KeywordLookup::create();
    assert_eq!(table.get(&"enum".to_string()), Some(TokenType::Enum));
    assert_eq!(table.get(&"endstruct".to_string()), Some(TokenType::EndStruct));
    assert_eq!(table.get(&"continue".to_string()), Some(TokenType::Continue));
    assert_eq!(table.get(&"type".to_string()), Some(TokenType::TypeAlias));
    assert_eq!(table.get(&"then".to_string()), Some(TokenType::Then));
    assert_eq!(table.get(&"end".to_string()), None);
    assert_eq!(table.get(&"".to_string()), None);
}

#[test]
fn lexer_scans_from_where_it_stands() {
    let mut lexer = Lexer::new("a+b");
    assert_eq!(lexer.tokenize(), Ok(()));
    let tokens = lexer.into_tokens();
    assert_eq!(tokens.len(), 4);
    assert_eq!(tokens[1], PieToken::new(TokenType::Plus, "+", None));
    assert_eq!(tokens[3], PieToken::eof());
}

#[test]
fn operator_tables() {
    assert_eq!(digraph_token('-', '>'), Some(TokenType::RightArrow));
    assert_eq!(digraph_token('-', '-'), None);
    assert_eq!(single_token('_'), Some(TokenType::Underscore));
    assert_eq!(single_token('&'), None);
}

#[test]
fn identifiers_may_hold_letters_of_any_script() {
    let tokens = drain(scan_all_tokens("größe2 = 1").unwrap());
    assert_eq!(tokens[0].type_, TokenType::Identifier);
    assert_eq!(tokens[0].lexeme, "größe2");
    assert_eq!(tokens[1].type_, TokenType::Equal);
}

#[test]
fn string_literal_may_span_lines() {
    let tokens = drain(scan_all_tokens("\"a\nb\" x").unwrap());
    assert_eq!(tokens[0].value, Some(PieValue::StringLiteral("a\nb".to_string())));
    assert_eq!(tokens[1].lexeme, "x");
}

#[test]
fn lexical_errors_describe_themselves() {
    assert_eq!(
        LexError::UnexpectedCharacter { ch: '#', line: 2, column: 10 }.message(),
        "Unexpected: # at: 2:10"
    );
    assert_eq!(
        LexError::UnterminatedString { line: 0, column: 4 }.message(),
        "Unterminated string at: 0:4"
    );
    assert_eq!(
        LexError::MalformedNumber { line: 12, column: 345 }.message(),
        "Malformed number at: 12:345"
    );
}

#[test]
fn float_literal_keeps_its_text() {
    let tokens = drain(scan_all_tokens("007.50").unwrap());
    assert_eq!(tokens.len(), 2);
    assert_eq!(tokens[0].type_, TokenType::Float);
    assert_eq!(tokens[0].lexeme, "007.50");
    assert_eq!(tokens[0].value, Some(PieValue::FloatLiteral("007.50".to_string())));
}

#[test]
fn stream_stops_at_the_first_end_token() {
    let tokens = vec![
        PieToken::new(TokenType::Plus, "+", None),
        PieToken::eof(),
        PieToken::new(TokenType::Minus, "-", None),
    ];
    let mut stream = PieTokenStream::from(tokens);
    assert_eq!(stream.next_token().type_, TokenType::Plus);
    assert_eq!(stream.next_token().type_, TokenType::Eof);
    assert_eq!(stream.next_token().type_, TokenType::Eof);
    assert!(stream.is_eof());
}

#[test]
fn tokens_carry_the_text_they_were_matched_on() {
    let tokens = drain(scan_all_tokens("fact(n) -> 10").unwrap());
    let lexemes: Vec<&str> = tokens.iter().map(|t| t.lexeme.as_str()).collect();
    assert_eq!(lexemes, vec!["fact", "(", "n", ")", "->", "10", ""]);
    assert_eq!(tokens[0].value, None);
    assert_eq!(tokens[4].value, None);
}
