use nadra::lexer::{scan_all_tokens, LexError, TokenType};
use nadra::parser::ast::{AstNode, IfStatement};
use nadra::parser::SyntaxError;
use nadra::pipeline::{transpile_all, transpile_source, transpile_tokens, Failure};
use nadra::transpiler::GenerationError;

#[test]
fn source_becomes_python_statement_by_statement() {
    let source = "use math\ndef double(x) -> int\n  return x * 2\nenddef\ndouble(21)";
    assert_eq!(
        transpile_source(source),
        Ok(vec![
            "import math".to_string(),
            "def double(x):\n\treturn x * 2\n".to_string(),
            "double(21)".to_string(),
        ])
    );
}

#[test]
fn empty_source_has_no_statement() {
    assert_eq!(transpile_source(""), Ok(vec![]));
    assert_eq!(transpile_source(" \n\t\r\n"), Ok(vec![]));
}

#[test]
fn each_stage_reports_its_own_failure() {
    assert_eq!(
        transpile_source("x ? y"),
        Err(Failure::Lexical(LexError::UnexpectedCharacter { ch: '?', line: 0, column: 3 }))
    );
    assert_eq!(
        transpile_source("if x"),
        Err(Failure::Syntax(SyntaxError::UnexpectedEndOfInput))
    );
    assert_eq!(
        transpile_source("x + )"),
        Err(Failure::Syntax(SyntaxError::UnrecognizedToken { found: TokenType::RightParen }))
    );
    let statements = vec![
        AstNode::Identifier("x".to_string()),
        AstNode::LambdaFunction { params: vec![], body: vec![] },
    ];
    assert_eq!(
        transpile_all(&statements),
        Err(Failure::Generation(GenerationError::UnimplementedLambda))
    );
}

#[test]
fn failures_describe_themselves() {
    assert_eq!(Failure::NestingTooDeep.message(), "Blocks are nested too deeply");
    assert_eq!(
        Failure::Lexical(LexError::UnterminatedString { line: 3, column: 7 }).message(),
        "Unterminated string at: 3:7"
    );
    assert_eq!(
        Failure::Generation(GenerationError::UnimplementedLambda).message(),
        "Functions without a name cannot be written"
    );
}

#[test]
fn nested_blocks_are_written_level_by_level() {
    let mut node = AstNode::Identifier("x".to_string());
    for _ in 0..3 {
        node = AstNode::IfStatement(IfStatement {
            condition: Box::new(AstNode::BooleanLiteral(true)),
            body: vec![node],
        });
    }
    assert_eq!(
        transpile_all(&vec![node]),
        Ok(vec!["if True:\n\tif True:\n\t\tif True:\n\t\t\tx\n\n\n".to_string()])
    );
}

#[test]
fn tokens_become_python() {
    let mut stream = scan_all_tokens("a.b(1, 2) >= -c").unwrap();
    assert_eq!(transpile_tokens(&mut stream), Ok(vec!["a.b(1, 2) >= -c".to_string()]));
    assert_eq!(
        Failure::Syntax(SyntaxError::MissingOperand).message(),
        "Expected an expression"
    );
}

#[test]
fn plain_expressions_come_back() {
    for source in [
        "x",
        "0",
        "\"a b\"",
        "-x",
        "- -x",
        "a + b",
        "a - b - c",
        "a ** b ** c",
        "a == b + c * d ** -e",
        "a * b + c / d % 7 <= \"s\" - 12",
    ] {
        let mut stream = scan_all_tokens(source).unwrap();
        let first = nadra::parser::generate_ast(&mut stream).unwrap();
        assert_eq!(first.len(), 1);
        let text = nadra::transpiler::transpile(&first[0]).unwrap();
        let mut again = scan_all_tokens(&text).unwrap();
        let second = nadra::parser::generate_ast(&mut again).unwrap();
        assert_eq!(first, second);
    }
}

#[test]
fn words_for_operators_and_truth_values_do_not_come_back() {
    assert_eq!(transpile_source("a && b"), Ok(vec!["a and b".to_string()]));
    assert_eq!(
        transpile_source("a and b"),
        Ok(vec!["a".to_string(), "and".to_string(), "b".to_string()])
    );
    assert_eq!(transpile_source("true"), Ok(vec!["True".to_string()]));
    assert_eq!(transpile_source("True"), Ok(vec!["True".to_string()]));
    assert_eq!(
        transpile_source("if a then b endif"),
        Ok(vec!["if a:\n\tb\n".to_string()])
    );
    assert_eq!(
        transpile_source("if a:\n\tb\n"),
        Err(Failure::Syntax(SyntaxError::UnexpectedToken {
            expected: TokenType::Then,
            found: TokenType::Colon
        }))
    );
    assert_eq!(
        transpile_source("while a:\n\tb\n"),
        Err(Failure::Syntax(SyntaxError::UnexpectedToken {
            expected: TokenType::Do,
            found: TokenType::Colon
        }))
    );
}
