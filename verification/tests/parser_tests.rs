use monkey::ast::{Expression, InfixOp, PrefixOp, Program, Statement};
use monkey::lexer::tokenize;
use monkey::parser::{parse, Parser};
use monkey::token::{Token, TokenKind};

fn parse_ok(source: &str) -> Program {
    let (program, errors) = parse(tokenize(source));
    assert!(errors.is_empty(), "syntax errors in {:?}: {:?}", source, errors);
    program
}

fn errors_of(source: &str) -> Vec<String> {
    parse(tokenize(source)).1
}

fn text_of(source: &str) -> String {
    parse_ok(source).to_text()
}

#[test]
fn operator_precedence() {
    assert_eq!(text_of("-a * b"), "((-a) * b)");
    assert_eq!(text_of("!-a"), "(!(-a))");
    assert_eq!(text_of("a + b + c"), "((a + b) + c)");
    assert_eq!(text_of("a + b - c"), "((a + b) - c)");
    assert_eq!(text_of("a * b * c"), "((a * b) * c)");
    assert_eq!(text_of("a * b / c"), "((a * b) / c)");
    assert_eq!(text_of("a + b / c"), "(a + (b / c))");
    assert_eq!(text_of("a + b * c + d / e - f"), "(((a + (b * c)) + (d / e)) - f)");
    assert_eq!(text_of("3 + 4; -5 * 5"), "(3 + 4)((-5) * 5)");
    assert_eq!(text_of("5 > 4 == 3 < 4"), "((5 > 4) == (3 < 4))");
    assert_eq!(text_of("5 < 4 != 3 > 4"), "((5 < 4) != (3 > 4))");
    assert_eq!(text_of("3 + 4 * 5 == 3 * 1 + 4 * 5"), "((3 + (4 * 5)) == ((3 * 1) + (4 * 5)))");
    assert_eq!(text_of("true"), "true");
    assert_eq!(text_of("false"), "false");
    assert_eq!(text_of("3 > 5 == false"), "((3 > 5) == false)");
    assert_eq!(text_of("3 < 5 == true"), "((3 < 5) == true)");
}

#[test]
fn parentheses_group() {
    assert_eq!(text_of("1 + (2 + 3) + 4"), "((1 + (2 + 3)) + 4)");
    assert_eq!(text_of("(5 + 5) * 2"), "((5 + 5) * 2)");
    assert_eq!(text_of("2 / (5 + 5)"), "(2 / (5 + 5))");
    assert_eq!(text_of("-(5 + 5)"), "(-(5 + 5))");
    assert_eq!(text_of("!(true == true)"), "(!(true == true))");
    assert_eq!(text_of("((1))"), "1");
}

#[test]
fn call_and_index_bind_tightest() {
    assert_eq!(text_of("a + add(b * c) + d"), "((a + add((b * c))) + d)");
    assert_eq!(
        text_of("add(a, b, 1, 2 * 3, 4 + 5, add(6, 7 * 8))"),
        "add(a, b, 1, (2 * 3), (4 + 5), add(6, (7 * 8)))"
    );
    assert_eq!(text_of("add(a + b + c * d / f + g)"), "add((((a + b) + ((c * d) / f)) + g))");
    assert_eq!(text_of("a * [1, 2, 3, 4][b * c] * d"), "((a * ([1, 2, 3, 4][(b * c)])) * d)");
    assert_eq!(
        text_of("add(a * b[2], b[1], 2 * [1, 2][1])"),
        "add((a * (b[2])), (b[1]), (2 * ([1, 2][1])))"
    );
    assert_eq!(text_of("-f(1)"), "(-f(1))");
    assert_eq!(text_of("-a[0]"), "(-(a[0]))");
    assert_eq!(text_of("arr[0]()"), "(arr[0])()");
    assert_eq!(text_of("f()[0]"), "(f()[0])");
    assert_eq!(text_of("f(1)(2)"), "f(1)(2)");
    assert_eq!(text_of("a[0][1]"), "((a[0])[1])");
}

#[test]
fn let_statement_shape() {
    let program = parse_ok("let x = 5; let y = true; let foobar = y;");
    assert_eq!(program.statements.len(), 3);
    match &program.statements[0] {
        Statement::Let { name, value } => {
            assert_eq!(name, "x");
            assert!(matches!(value, Expression::IntegerLiteral { value: 5 }));
        }
        other => panic!("expected a let statement, got {:?}", other),
    }
    match &program.statements[2] {
        Statement::Let { name, value } => {
            assert_eq!(name, "foobar");
            match value {
                Expression::Identifier { name } => assert_eq!(name, "y"),
                other => panic!("expected an identifier, got {:?}", other),
            }
        }
        other => panic!("expected a let statement, got {:?}", other),
    }
    assert_eq!(program.to_text(), "let x = 5;let y = true;let foobar = y;");
}

#[test]
fn return_statement_shape() {
    let program = parse_ok("return 5; return a + b");
    assert_eq!(program.statements.len(), 2);
    assert!(matches!(
        &program.statements[0],
        Statement::Return { value: Expression::IntegerLiteral { value: 5 } }
    ));
    assert_eq!(program.to_text(), "return 5;return (a + b);");
}

#[test]
fn semicolons_are_optional() {
    assert_eq!(text_of("let x = 1 let y = 2 x + y"), "let x = 1;let y = 2;(x + y)");
    assert_eq!(text_of("1; 2; 3"), "123");
    assert_eq!(parse_ok("1 2").statements.len(), 2);
}

#[test]
fn literal_expressions() {
    let program = parse_ok("foobar; 5; \"hello world\"; true; false;");
    assert_eq!(program.statements.len(), 5);
    match &program.statements[0] {
        Statement::Expression { expression: Expression::Identifier { name } } => {
            assert_eq!(name, "foobar")
        }
        other => panic!("unexpected {:?}", other),
    }
    assert!(matches!(
        &program.statements[1],
        Statement::Expression { expression: Expression::IntegerLiteral { value: 5 } }
    ));
    match &program.statements[2] {
        Statement::Expression { expression: Expression::StringLiteral { value } } => {
            assert_eq!(value, "hello world")
        }
        other => panic!("unexpected {:?}", other),
    }
    assert!(matches!(
        &program.statements[3],
        Statement::Expression { expression: Expression::BooleanLiteral { value: true } }
    ));
    assert!(matches!(
        &program.statements[4],
        Statement::Expression { expression: Expression::BooleanLiteral { value: false } }
    ));
}

#[test]
fn prefix_and_infix_shape() {
    let program = parse_ok("!5; 5 + 6;");
    match &program.statements[0] {
        Statement::Expression { expression: Expression::Prefix { operator, right } } => {
            assert_eq!(*operator, PrefixOp::Bang);
            assert!(matches!(**right, Expression::IntegerLiteral { value: 5 }));
        }
        other => panic!("unexpected {:?}", other),
    }
    match &program.statements[1] {
        Statement::Expression { expression: Expression::Infix { operator, left, right } } => {
            assert_eq!(*operator, InfixOp::Plus);
            assert!(matches!(**left, Expression::IntegerLiteral { value: 5 }));
            assert!(matches!(**right, Expression::IntegerLiteral { value: 6 }));
        }
        other => panic!("unexpected {:?}", other),
    }
}

#[test]
fn if_expression_shape() {
    let program = parse_ok("if (x < y) { x }");
    match &program.statements[0] {
        Statement::Expression {
            expression: Expression::If { condition, consequence, alternative },
        } => {
            assert_eq!(condition.to_text(), "(x < y)");
            assert_eq!(consequence.statements.len(), 1);
            assert!(alternative.is_none());
        }
        other => panic!("unexpected {:?}", other),
    }
    assert_eq!(text_of("if (x < y) { x }"), "if(x < y) x");
    assert_eq!(text_of("if (x < y) { x } else { y; z }"), "if(x < y) xelse yz");
    assert_eq!(text_of("if (a) { } else { }"), "ifa else ");
}

#[test]
fn function_literal_shape() {
    let program = parse_ok("fn(x, y) { x + y; }");
    match &program.statements[0] {
        Statement::Expression { expression: Expression::Function { parameters, body } } => {
            assert_eq!(parameters, &vec!["x".to_string(), "y".to_string()]);
            assert_eq!(body.statements.len(), 1);
            assert_eq!(body.statements[0].to_text(), "(x + y)");
        }
        other => panic!("unexpected {:?}", other),
    }
    assert_eq!(text_of("fn() {}"), "fn() ");
    assert_eq!(text_of("fn(x) {}"), "fn(x) ");
    assert_eq!(text_of("fn(x, y, z) { return x }"), "fn(x, y, z) return x;");
}

#[test]
fn function_parameters_must_be_names() {
    assert_eq!(
        errors_of("fn(x, 1)"),
        vec!["function parameter is not an identifier: 1".to_string()]
    );
    assert_eq!(
        errors_of("fn(a + b)"),
        vec!["function parameter is not an identifier: (a + b)".to_string()]
    );
    assert_eq!(
        errors_of("fn(x, 1) { x }"),
        vec![
            "function parameter is not an identifier: 1".to_string(),
            "expected next token to be :, got } instead".to_string(),
            "no prefix parse function for } found".to_string(),
        ]
    );
}

#[test]
fn call_expression_shape() {
    let program = parse_ok("add(1, 2 * 3, 4 + 5);");
    match &program.statements[0] {
        Statement::Expression { expression: Expression::Call { function, arguments } } => {
            assert_eq!(function.to_text(), "add");
            assert_eq!(arguments.len(), 3);
            assert_eq!(arguments[1].to_text(), "(2 * 3)");
        }
        other => panic!("unexpected {:?}", other),
    }
    assert_eq!(text_of("f()"), "f()");
}

#[test]
fn array_and_index_shape() {
    assert_eq!(text_of("[1, 2 * 2, 3 + 3]"), "[1, (2 * 2), (3 + 3)]");
    assert_eq!(text_of("[]"), "[]");
    assert_eq!(text_of("myArray[1 + 1]"), "(myArray[(1 + 1)])");
}

#[test]
fn hash_literal_shape() {
    let program = parse_ok("{\"one\": 1, \"two\": 2, \"three\": 3}");
    match &program.statements[0] {
        Statement::Expression { expression: Expression::Hash { pairs } } => {
            assert_eq!(pairs.len(), 3);
            assert_eq!(pairs[0].0.to_text(), "one");
            assert_eq!(pairs[2].1.to_text(), "3");
        }
        other => panic!("unexpected {:?}", other),
    }
    assert_eq!(text_of("{}"), "{}");
    assert_eq!(text_of("{1: 2,}"), "{1:2}");
    assert_eq!(text_of("{\"a\": 0 + 1, b: 10 / 2}"), "{a:(0 + 1), b:(10 / 2)}");
    assert_eq!(text_of("{1: 2}[1]"), "({1:2}[1])");
}

#[test]
fn unexpected_token_errors() {
    assert_eq!(
        errors_of("let x 5;"),
        vec!["expected next token to be =, got INT instead".to_string()]
    );
    assert_eq!(
        errors_of("let = 10;"),
        vec![
            "expected next token to be IDENT, got = instead".to_string(),
            "no prefix parse function for = found".to_string(),
        ]
    );
    assert_eq!(
        errors_of("(1 + 2"),
        vec!["expected next token to be ), got EOF instead".to_string()]
    );
    assert_eq!(
        errors_of("[1, 2"),
        vec!["expected next token to be ], got EOF instead".to_string()]
    );
    assert_eq!(
        errors_of("a[1"),
        vec!["expected next token to be ], got EOF instead".to_string()]
    );
    assert_eq!(
        errors_of("f(1 2)"),
        vec![
            "expected next token to be ), got INT instead".to_string(),
            "no prefix parse function for ) found".to_string(),
        ]
    );
    assert_eq!(
        errors_of("{1 2}"),
        vec![
            "expected next token to be :, got INT instead".to_string(),
            "no prefix parse function for } found".to_string(),
        ]
    );
    assert_eq!(
        errors_of("{1: 2 3}"),
        vec![
            "expected next token to be ,, got INT instead".to_string(),
            "no prefix parse function for } found".to_string(),
        ]
    );
    assert_eq!(
        errors_of("if x { 1 }"),
        vec![
            "expected next token to be (, got IDENT instead".to_string(),
            "expected next token to be :, got } instead".to_string(),
            "no prefix parse function for } found".to_string(),
        ]
    );
    assert_eq!(
        errors_of("fn x"),
        vec!["expected next token to be (, got IDENT instead".to_string()]
    );
    assert_eq!(
        errors_of("if (x) { 1 } else 2"),
        vec!["expected next token to be {, got INT instead".to_string()]
    );
}

#[test]
fn missing_operand_errors() {
    assert_eq!(errors_of("1 +"), vec!["no prefix parse function for EOF found".to_string()]);
    assert_eq!(errors_of("-"), vec!["no prefix parse function for EOF found".to_string()]);
    assert_eq!(errors_of("return"), vec!["no prefix parse function for EOF found".to_string()]);
    assert_eq!(errors_of(")"), vec!["no prefix parse function for ) found".to_string()]);
    assert_eq!(errors_of("* 2"), vec!["no prefix parse function for * found".to_string()]);
}

#[test]
fn unterminated_block_is_an_error() {
    assert_eq!(
        errors_of("if (x) { 1"),
        vec!["expected next token to be }, got EOF instead".to_string()]
    );
    assert_eq!(
        errors_of("fn() { 1; 2"),
        vec!["expected next token to be }, got EOF instead".to_string()]
    );
}

#[test]
fn illegal_token_is_an_error_not_a_crash() {
    assert_eq!(errors_of("@"), vec!["no prefix parse function for ILLEGAL found".to_string()]);
    assert_eq!(
        errors_of("1 @ 2"),
        vec!["no prefix parse function for ILLEGAL found".to_string()]
    );
    assert!(!errors_of("let a = #;").is_empty());
}

#[test]
fn integer_literal_out_of_range() {
    assert_eq!(
        errors_of("9223372036854775808"),
        vec!["could not parse 9223372036854775808 as integer".to_string()]
    );
    assert!(errors_of("9223372036854775807").is_empty());
    assert!(errors_of("0009").is_empty());
    assert_eq!(text_of("0009"), "9");
}

#[test]
fn parsing_goes_on_after_an_error() {
    let (program, errors) = parse(tokenize("let x 5; let y = 10; let 838383;"));
    assert_eq!(
        errors,
        vec![
            "expected next token to be =, got INT instead".to_string(),
            "expected next token to be IDENT, got INT instead".to_string(),
        ]
    );
    assert_eq!(program.to_text(), "5let y = 10;838383");
}

#[test]
fn tokens_without_an_end_marker() {
    let tokens = vec![
        Token::new(TokenKind::Int, "1".to_string()),
        Token::new(TokenKind::Plus, "+".to_string()),
        Token::new(TokenKind::Int, "2".to_string()),
    ];
    let (program, errors) = parse(tokens);
    assert!(errors.is_empty());
    assert_eq!(program.to_text(), "(1 + 2)");
    let (program, errors) = parse(Vec::new());
    assert!(errors.is_empty());
    assert!(program.statements.is_empty());
}

#[test]
fn tokens_after_an_end_marker_are_not_read() {
    let tokens = vec![
        Token::new(TokenKind::Int, "1".to_string()),
        Token::new(TokenKind::Eof, "".to_string()),
        Token::new(TokenKind::Int, "2".to_string()),
    ];
    let (program, errors) = parse(tokens);
    assert!(errors.is_empty());
    assert_eq!(program.to_text(), "1");
}

#[test]
fn parser_keeps_its_errors() {
    let mut parser = Parser::new(tokenize("let 1; 2 +"));
    let program = parser.parse_program();
    assert_eq!(program.statements.len(), 1);
    assert_eq!(parser.errors().len(), 2);
    assert_eq!(parser.errors()[0], "expected next token to be IDENT, got INT instead");
    assert_eq!(parser.errors()[1], "no prefix parse function for EOF found");
}

#[test]
fn parse_expression_at_a_level() {
    let mut parser = Parser::new(tokenize("1 + 2 * 3 + 4"));
    let e = parser.parse_expression(3).unwrap();
    assert_eq!(e.to_text(), "1");
    assert_eq!(parser.pos, 0);
    let mut parser = Parser::new(tokenize("1 * 2 + 3"));
    let e = parser.parse_expression(3).unwrap();
    assert_eq!(e.to_text(), "(1 * 2)");
    assert_eq!(parser.pos, 2);
}

#[test]
fn clone_keeps_the_tree() {
    let program = parse_ok("let f = fn(x, y) { if (x) { [1, {\"a\": -y}][0] } else { !f(y) } };");
    assert_eq!(program.clone().to_text(), program.to_text());
}
