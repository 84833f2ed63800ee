use nadra::lexer::{scan_all_tokens, CanBeEof, PieToken, PieTokenStream, PieValue, TokenType};
use nadra::parser::ast::{
    AstNode, BinaryOperation, BinaryOperator, FunctionCall, FunctionDefinition, IfStatement,
    MemberAccess, ReturnStatement, UnaryOperation, UnaryOperator, UseStatement, WhileLoop,
};
use nadra::parser::{generate_ast, Parser, SyntaxError};

fn parse(source: &str) -> Result<Vec<AstNode>, SyntaxError> {
    let mut stream = scan_all_tokens(source).unwrap();
    generate_ast(&mut stream)
}

fn ident(name: &str) -> AstNode {
    AstNode::Identifier(name.to_string())
}

fn integer(v: i64) -> AstNode {
    AstNode::IntegerLiteral(v)
}

fn binary(operator: BinaryOperator, left: AstNode, right: AstNode) -> AstNode {
    AstNode::BinaryOperation(BinaryOperation {
        operator,
        left_child: Box::new(left),
        right_child: Box::new(right),
    })
}

#[test]
fn multiplication_binds_tighter_than_addition() {
    let ast = parse("2 + 3 * 4").unwrap();
    assert_eq!(
        ast,
        vec![binary(
            BinaryOperator::Plus,
            integer(2),
            binary(BinaryOperator::Asterisk, integer(3), integer(4))
        )]
    );
}

#[test]
fn subtraction_groups_to_the_left() {
    let ast = parse("a - b - c").unwrap();
    assert_eq!(
        ast,
        vec![binary(
            BinaryOperator::Minus,
            binary(BinaryOperator::Minus, ident("a"), ident("b")),
            ident("c")
        )]
    );
}

#[test]
fn all_levels_nest_by_precedence() {
    let ast = parse("a == b + c * d ** e").unwrap();
    assert_eq!(
        ast,
        vec![binary(
            BinaryOperator::EqualEqual,
            ident("a"),
            binary(
                BinaryOperator::Plus,
                ident("b"),
                binary(
                    BinaryOperator::Asterisk,
                    ident("c"),
                    binary(BinaryOperator::Exponent, ident("d"), ident("e"))
                )
            )
        )]
    );
}

#[test]
fn parentheses_leave_no_node() {
    let ast = parse("(1 + 2) * 3").unwrap();
    assert_eq!(
        ast,
        vec![binary(
            BinaryOperator::Asterisk,
            binary(BinaryOperator::Plus, integer(1), integer(2)),
            integer(3)
        )]
    );
}

#[test]
fn empty_program_has_no_statement() {
    let mut stream = scan_all_tokens("").unwrap();
    let ast = generate_ast(&mut stream);
    assert_eq!(ast, Ok(vec![]));
    assert!(stream.is_eof());
}

#[test]
fn whole_stream_is_read_on_success() {
    let mut stream = scan_all_tokens("f(1)\nuse math").unwrap();
    let ast = generate_ast(&mut stream).unwrap();
    assert_eq!(ast.len(), 2);
    assert!(stream.is_eof());
    assert_eq!(stream.peek().type_, TokenType::Eof);
}

#[test]
fn function_definition_end_to_end_tree() {
    let source = "def fact(n) -> int\n    if n == 0 then\n        return 1\n    endif\n    return n\nenddef\n";
    let ast = parse(source).unwrap();
    let expected = AstNode::FunctionDefinition(FunctionDefinition {
        name: "fact".to_string(),
        return_type: TokenType::Identifier,
        param_list: vec![ident("n")],
        body: vec![
            AstNode::IfStatement(IfStatement {
                condition: Box::new(binary(BinaryOperator::EqualEqual, ident("n"), integer(0))),
                body: vec![AstNode::ReturnStatement(ReturnStatement { body: Box::new(integer(1)) })],
            }),
            AstNode::ReturnStatement(ReturnStatement { body: Box::new(ident("n")) }),
        ],
    });
    assert_eq!(ast, vec![expected]);
}

#[test]
fn while_loop_and_use_statement() {
    let ast = parse("use math\nwhile x < 10 do\n  f(x, 1)\ndone").unwrap();
    assert_eq!(
        ast,
        vec![
            AstNode::UseStatement(UseStatement { namespace: "math".to_string() }),
            AstNode::WhileLoop(WhileLoop {
                condition: Box::new(binary(BinaryOperator::Less, ident("x"), integer(10))),
                body: vec![AstNode::FunctionCall(FunctionCall {
                    function: "f".to_string(),
                    args: vec![ident("x"), integer(1)],
                })],
            }),
        ]
    );
}

#[test]
fn member_access_nests_to_the_right() {
    let ast = parse("a.b.c()").unwrap();
    assert_eq!(
        ast,
        vec![AstNode::MemberAccess(MemberAccess {
            parent: Box::new(ident("a")),
            child: Box::new(AstNode::MemberAccess(MemberAccess {
                parent: Box::new(ident("b")),
                child: Box::new(AstNode::FunctionCall(FunctionCall {
                    function: "c".to_string(),
                    args: vec![],
                })),
            })),
        })]
    );
}

#[test]
fn unary_operators_and_literals() {
    let ast = parse("-x\n!true\n\"hi\"\n2.50\nfalse").unwrap();
    assert_eq!(
        ast,
        vec![
            AstNode::UnaryOperation(UnaryOperation {
                operator: UnaryOperator::Minus,
                operand: Box::new(ident("x")),
            }),
            AstNode::UnaryOperation(UnaryOperation {
                operator: UnaryOperator::LogicalNot,
                operand: Box::new(AstNode::BooleanLiteral(true)),
            }),
            AstNode::StringLiteral("hi".to_string()),
            AstNode::FloatLiteral("2.50".to_string()),
            AstNode::BooleanLiteral(false),
        ]
    );
}

#[test]
fn a_token_of_the_wrong_kind_is_named() {
    assert_eq!(
        parse("def 1"),
        Err(SyntaxError::UnexpectedToken {
            expected: TokenType::Identifier,
            found: TokenType::Integer
        })
    );
    assert_eq!(
        parse("if x do"),
        Err(SyntaxError::UnexpectedToken { expected: TokenType::Then, found: TokenType::Do })
    );
    assert_eq!(
        parse("def f(a, 1) -> int enddef"),
        Err(SyntaxError::UnexpectedToken {
            expected: TokenType::Identifier,
            found: TokenType::Integer
        })
    );
    assert_eq!(
        parse("(1 2"),
        Err(SyntaxError::UnexpectedToken {
            expected: TokenType::RightParen,
            found: TokenType::Integer
        })
    );
}

#[test]
fn the_end_of_the_stream_inside_a_rule_is_an_error() {
    assert_eq!(parse("(1"), Err(SyntaxError::UnexpectedEndOfInput));
    assert_eq!(parse("while x do f()"), Err(SyntaxError::UnexpectedEndOfInput));
    assert_eq!(parse("def f() -> int"), Err(SyntaxError::UnexpectedEndOfInput));
    assert_eq!(parse("use"), Err(SyntaxError::UnexpectedEndOfInput));
}

#[test]
fn an_operator_without_operand_is_an_error() {
    assert_eq!(parse("1 +"), Err(SyntaxError::MissingOperand));
    assert_eq!(parse("-"), Err(SyntaxError::MissingOperand));
    assert_eq!(parse("return"), Err(SyntaxError::MissingOperand));
    assert_eq!(parse("f(1,"), Err(SyntaxError::MissingOperand));
}

#[test]
fn a_token_that_begins_no_expression_is_an_error() {
    assert_eq!(parse(")"), Err(SyntaxError::UnrecognizedToken { found: TokenType::RightParen }));
    assert_eq!(parse("x = 1"), Err(SyntaxError::UnrecognizedToken { found: TokenType::Equal }));
    assert_eq!(parse("1 + *"), Err(SyntaxError::UnrecognizedToken { found: TokenType::Asterisk }));
}

#[test]
fn a_literal_token_without_value_is_an_error() {
    let tokens = vec![PieToken::new(TokenType::Integer, "1", None), PieToken::eof()];
    let mut stream = PieTokenStream::from(tokens);
    assert_eq!(generate_ast(&mut stream), Err(SyntaxError::MissingOperand));
    let tokens = vec![
        PieToken::new(TokenType::String, "f\"x\"", Some(PieValue::FormatStringLiteral("x".to_string()))),
        PieToken::eof(),
    ];
    let mut stream = PieTokenStream::from(tokens);
    assert_eq!(
        generate_ast(&mut stream),
        Err(SyntaxError::UnexpectedToken { expected: TokenType::Integer, found: TokenType::String })
    );
}

#[test]
fn lambda_header_has_no_body() {
    let mut parser = Parser::new(scan_all_tokens("(a, b) ->").unwrap());
    let node = parser.parse_lambda().unwrap();
    assert_eq!(node, AstNode::LambdaFunction { params: vec![ident("a"), ident("b")], body: vec![] });
    assert!(!parser.has_next());
    let mut parser = Parser::new(scan_all_tokens("(a, b)").unwrap());
    assert_eq!(parser.parse_lambda(), Err(SyntaxError::UnexpectedEndOfInput));
}

#[test]
fn stream_never_goes_past_its_end() {
    let mut stream = scan_all_tokens("x").unwrap();
    assert!(!stream.is_eof());
    assert_eq!(stream.peek().type_, TokenType::Identifier);
    assert_eq!(stream.next_token().lexeme, "x");
    assert!(stream.is_eof());
    assert!(stream.is_eof_internal());
    for _ in 0..3 {
        assert_eq!(stream.peek().type_, TokenType::Eof);
        assert_eq!(stream.next_token().type_, TokenType::Eof);
    }
    let mut empty = PieTokenStream::from(vec![]);
    assert!(empty.is_eof());
    assert_eq!(empty.peek().type_, TokenType::Eof);
    assert_eq!(empty.next_token(), PieToken::eof());
}

#[test]
fn parser_steps_follow_the_stream() {
    let mut parser = Parser::new(scan_all_tokens("a , 1").unwrap());
    assert!(parser.has_next());
    assert_eq!(parser.next_token_precedence(), -1);
    assert_eq!(parser.expect_next(TokenType::Identifier), Ok(()));
    assert_eq!(
        parser.expect_next(TokenType::Comma),
        Err(SyntaxError::UnexpectedToken { expected: TokenType::Comma, found: TokenType::Identifier })
    );
    assert_eq!(parser.peek().lexeme, "a");
    assert_eq!(parser.next_token().lexeme, "a");
    assert_eq!(parser.next_token().type_, TokenType::Comma);
    assert_eq!(parser.parse_literal(), Ok(integer(1)));
    assert_eq!(parser.expect_next(TokenType::Comma), Err(SyntaxError::UnexpectedEndOfInput));
    let stream = parser.into_stream();
    assert!(stream.is_eof());
}

#[test]
fn operators_come_from_their_tokens() {
    let plus = PieToken::new(TokenType::Plus, "+", None);
    let power = PieToken::new(TokenType::AsteriskAsterisk, "**", None);
    let bang = PieToken::new(TokenType::Bang, "!", None);
    assert_eq!(BinaryOperator::from(&plus), Some(BinaryOperator::Plus));
    assert_eq!(BinaryOperator::from(&power), Some(BinaryOperator::Exponent));
    assert_eq!(BinaryOperator::from(&bang), None);
    assert!(TokenType::is_binary_operator(&plus));
    assert!(!TokenType::is_binary_operator(&bang));
    assert_eq!(TokenType::Bang.precedence_level(), 0);
    assert_eq!(TokenType::LessEqual.precedence_level(), 1);
    assert_eq!(TokenType::ModulusEqual.precedence_level(), 2);
    assert_eq!(TokenType::Or.precedence_level(), 3);
    assert_eq!(TokenType::Slash.precedence_level(), 4);
    assert_eq!(TokenType::AsteriskAsterisk.precedence_level(), 5);
    assert_eq!(TokenType::Identifier.precedence_level(), -1);
}

#[test]
fn syntax_errors_describe_themselves() {
    assert_eq!(
        SyntaxError::UnexpectedToken { expected: TokenType::Then, found: TokenType::Do }.message(),
        "Expected Then found Do"
    );
    assert_eq!(SyntaxError::UnexpectedEndOfInput.message(), "Reached end of token stream");
    assert_eq!(SyntaxError::MissingOperand.message(), "Expected an expression");
    assert_eq!(
        SyntaxError::UnrecognizedToken { found: TokenType::RightParen }.message(),
        "Unexpected token: RightParen"
    );
    assert_eq!(TokenType::AsteriskAsterisk.name(), "AsteriskAsterisk");
    assert_eq!(TokenType::Eof.name(), "Eof");
}
