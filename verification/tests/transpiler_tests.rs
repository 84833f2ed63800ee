use nadra::lexer::scan_all_tokens;
use nadra::parser::ast::{
    AstNode, BinaryOperation, BinaryOperator, IfStatement, MemberAccess, UnaryOperation,
    UnaryOperator, WhileLoop,
};
use nadra::parser::{generate_ast, SyntaxError};
use nadra::lexer::TokenType;
use nadra::text::{is_decimal_digit, parse_decimal, render_decimal};
use nadra::transpiler::{all_within, depth_within, transpile, GenerationError, PythonTranspiler};

fn parse(source: &str) -> Vec<AstNode> {
    let mut stream = scan_all_tokens(source).unwrap();
    generate_ast(&mut stream).unwrap()
}

fn to_python(source: &str) -> Vec<String> {
    parse(source).iter().map(|node| transpile(node).unwrap()).collect()
}

#[test]
fn precedence_renders_without_parentheses() {
    assert_eq!(to_python("2 + 3 * 4"), vec!["2 + 3 * 4".to_string()]);
}

#[test]
fn function_definition_end_to_end_text() {
    let source = "def fact(n) -> int\n    if n == 0 then\n        return 1\n    endif\n    return n\nenddef\n";
    assert_eq!(
        to_python(source),
        vec!["def fact(n):\n\tif n == 0:\n\t\treturn 1\n\n\treturn n\n".to_string()]
    );
}

#[test]
fn while_loop_body_is_indented() {
    assert_eq!(
        to_python("while i < 3 do\n  f(i)\n  g(i, 2)\ndone"),
        vec!["while i < 3:\n\tf(i)\n\tg(i, 2)\n".to_string()]
    );
}

#[test]
fn literals_and_operators_have_their_python_spelling() {
    assert_eq!(
        to_python("-x\n!x\ntrue\nfalse\n\"a b\"\n12\n1.50\nx\na && b\na || b\na ** b\na != b\nuse os\nobj.field\nf()"),
        vec![
            "-x", "not x", "True", "False", "\"a b\"", "12", "1.50", "x", "a and b", "a or b",
            "a ** b", "a != b", "import os", "obj.field", "f()"
        ]
    );
}

#[test]
fn every_binary_operator_has_its_text() {
    let t = PythonTranspiler::new();
    let table = [
        (BinaryOperator::Plus, "+"),
        (BinaryOperator::Minus, "-"),
        (BinaryOperator::Asterisk, "*"),
        (BinaryOperator::Slash, "/"),
        (BinaryOperator::PlusEqual, "+="),
        (BinaryOperator::MinusEqual, "-="),
        (BinaryOperator::AsteriskEqual, "*="),
        (BinaryOperator::Exponent, "**"),
        (BinaryOperator::SlashEqual, "/="),
        (BinaryOperator::Modulus, "%"),
        (BinaryOperator::ModulusEqual, "%="),
        (BinaryOperator::Equal, "="),
        (BinaryOperator::EqualEqual, "=="),
        (BinaryOperator::BangEqual, "!="),
        (BinaryOperator::Less, "<"),
        (BinaryOperator::Greater, ">"),
        (BinaryOperator::LessEqual, "<="),
        (BinaryOperator::GreaterEqual, ">="),
        (BinaryOperator::Or, "or"),
        (BinaryOperator::And, "and"),
    ];
    for (operator, text) in table.iter() {
        assert_eq!(t.transpile_binary_operator(operator), *text);
    }
    assert_eq!(t.transpile_unary_operator(&UnaryOperator::Minus), "-");
    assert_eq!(t.transpile_unary_operator(&UnaryOperator::LogicalNot), "not ");
}

#[test]
fn lambda_cannot_be_rendered() {
    let lambda = AstNode::LambdaFunction { params: vec![], body: vec![] };
    assert_eq!(transpile(&lambda), Err(GenerationError::UnimplementedLambda));
    let inside = AstNode::IfStatement(IfStatement {
        condition: Box::new(AstNode::BooleanLiteral(true)),
        body: vec![
            AstNode::Identifier("x".to_string()),
            AstNode::UnaryOperation(UnaryOperation {
                operator: UnaryOperator::Minus,
                operand: Box::new(AstNode::LambdaFunction { params: vec![], body: vec![] }),
            }),
        ],
    });
    assert_eq!(transpile(&inside), Err(GenerationError::UnimplementedLambda));
}

#[test]
fn indentation_never_goes_below_zero() {
    let mut t = PythonTranspiler::new();
    assert_eq!(t.indent_code(), "");
    assert_eq!(t.decrease_indent(), 0);
    assert_eq!(t.increase_indent(), 1);
    assert_eq!(t.increase_indent(), 2);
    assert_eq!(t.indent_code(), "\t\t");
    assert_eq!(t.decrease_indent(), 1);
    assert_eq!(t.decrease_indent(), 0);
    assert_eq!(t.decrease_indent(), 0);
    assert_eq!(t.indent_code(), "");
}

#[test]
fn generator_keeps_its_level() {
    let mut t = PythonTranspiler::new();
    t.increase_indent();
    let node = AstNode::WhileLoop(WhileLoop {
        condition: Box::new(AstNode::BooleanLiteral(true)),
        body: vec![AstNode::Identifier("x".to_string())],
    });
    assert_eq!(t.generate_python(&node), Ok("while True:\n\t\tx\n".to_string()));
    assert_eq!(t.indent_code(), "\t");
    assert_eq!(t.transpile_block(&vec![AstNode::IntegerLiteral(1), AstNode::IntegerLiteral(2)]), Ok("\t1\n\t2\n".to_string()));
}

#[test]
fn hand_built_nodes_render() {
    let node = AstNode::MemberAccess(MemberAccess {
        parent: Box::new(AstNode::Identifier("a".to_string())),
        child: Box::new(AstNode::Identifier("b".to_string())),
    });
    assert_eq!(transpile(&node), Ok("a.b".to_string()));
    let node = AstNode::BinaryOperation(BinaryOperation {
        operator: BinaryOperator::PlusEqual,
        left_child: Box::new(AstNode::Identifier("a".to_string())),
        right_child: Box::new(AstNode::IntegerLiteral(-7)),
    });
    assert_eq!(transpile(&node), Ok("a += -7".to_string()));
}

#[test]
fn depth_counts_nested_blocks() {
    let nodes = parse("if a then\n while b do\n  c\n done\nendif\nx");
    assert!(!depth_within(&nodes[0], 0));
    assert!(!depth_within(&nodes[0], 1));
    assert!(depth_within(&nodes[0], 2));
    assert!(depth_within(&nodes[0], u16::MAX));
    assert!(depth_within(&nodes[1], 0));
    assert!(!all_within(&nodes, 1));
    assert!(all_within(&nodes, 2));
}

#[test]
fn decimal_text_of_integers() {
    assert_eq!(render_decimal(0), "0");
    assert_eq!(render_decimal(7), "7");
    assert_eq!(render_decimal(1200), "1200");
    assert_eq!(render_decimal(-45), "-45");
    assert_eq!(render_decimal(i64::MAX), "9223372036854775807");
    assert_eq!(render_decimal(i64::MIN), "-9223372036854775808");
}

#[test]
fn decimal_value_of_numerals() {
    assert_eq!(parse_decimal("0"), Some(0));
    assert_eq!(parse_decimal("007"), Some(7));
    assert_eq!(parse_decimal("9223372036854775807"), Some(i64::MAX));
    assert_eq!(parse_decimal("9223372036854775808"), None);
    assert_eq!(parse_decimal("99999999999999999999999"), None);
    assert_eq!(parse_decimal(""), None);
    assert_eq!(parse_decimal("12a"), None);
    assert_eq!(parse_decimal("-1"), None);
    assert!(is_decimal_digit('0') && is_decimal_digit('9'));
    assert!(!is_decimal_digit('a') && !is_decimal_digit('/') && !is_decimal_digit(':'));
}

#[test]
fn rendered_integer_is_read_back() {
    for v in [0i64, 5, 10, 99, 100, 123456789, i64::MAX] {
        let text = render_decimal(v);
        assert_eq!(parse_decimal(&text), Some(v));
        assert_eq!(parse(&text), vec![AstNode::IntegerLiteral(v)]);
    }
}

#[test]
fn rendered_expression_parses_to_the_same_tree() {
    for source in ["2 + 3 * 4", "a - b - c", "f(x, 1) == g.h", "-x ** 2 / y"] {
        let first = parse(source);
        let text: Vec<String> = first.iter().map(|n| transpile(n).unwrap()).collect();
        let second = parse(&text.join("\n"));
        assert_eq!(first, second);
    }
}

#[test]
fn rendered_blocks_are_python_and_no_source_text() {
    let text = to_python("def f() -> int\n  return 1\nenddef");
    assert_eq!(text, vec!["def f():\n\treturn 1\n".to_string()]);
    let mut stream = scan_all_tokens(&text[0]).unwrap();
    assert_eq!(
        generate_ast(&mut stream),
        Err(SyntaxError::UnexpectedToken {
            expected: TokenType::RightArrow,
            found: TokenType::Colon
        })
    );
}

#[test]
fn generation_error_describes_itself() {
    assert_eq!(
        GenerationError::UnimplementedLambda.message(),
        "Functions without a name cannot be written"
    );
}
