use std::collections::HashMap;

use monkey::ast::{Expression, Program, Statement};
use monkey::lexer::Lexer;
use monkey::parser::Parser;

use ExpectedLiteral::{Boolean, Integer};

#[derive(Clone, Copy, Debug)]
enum ExpectedLiteral {
    Integer(i64),
    Boolean(bool),
    Identifier(&'static str),
}

fn parse(input: &str) -> Program {
    let mut lexer = Lexer::new(input);
    let mut parser = Parser::new(&mut lexer);
    let program = parser.parse_program();
    assert!(
        parser.errors().is_empty(),
        "parser errors:\n{}",
        parser.errors().join("\n")
    );
    program
}

fn test_integer_literal(got: &Expression, expected_value: i64) {
    let Expression::IntegerLiteral { token, value } = got else {
        panic!("expected an integer literal expression. got={got:?}");
    };
    assert_eq!(*value, expected_value);
    assert_eq!(token.literal(), format!("{value}"));
}

fn test_boolean_literal(got: &Expression, expected_value: bool) {
    let Expression::BooleanLiteral { token, value } = got else {
        panic!("expected a boolean literal expression. got={got:?}");
    };
    assert_eq!(*value, expected_value);
    assert_eq!(token.literal(), format!("{value}"));
}

fn test_identifier(got: &Expression, expected_value: &str) {
    let Expression::Identifier(identifier) = got else {
        panic!("expected an identifier expression. got={got:?}");
    };
    assert_eq!(identifier.value(), expected_value);
    assert_eq!(identifier.token_literal(), expected_value);
}

fn test_literal_expression(got: &Expression, expected: ExpectedLiteral) {
    match expected {
        ExpectedLiteral::Integer(value) => test_integer_literal(got, value),
        ExpectedLiteral::Boolean(value) => test_boolean_literal(got, value),
        ExpectedLiteral::Identifier(value) => test_identifier(got, value),
    }
}

fn test_prefix_expression(got: &Expression, expected_operator: &str, expected_value: ExpectedLiteral) {
    let Expression::PrefixExpr { operator, right, .. } = got else {
        panic!("expression is not a prefix expression: {got:?}");
    };
    assert_eq!(*operator, expected_operator);
    test_literal_expression(right.as_ref(), expected_value);
}

fn test_infix_expression(
    got: &Expression,
    expected_left: ExpectedLiteral,
    expected_operator: &str,
    expected_right: ExpectedLiteral,
) {
    let Expression::InfixExpr { left, operator, right, .. } = got else {
        panic!("expression is not an infix expression: {got:?}");
    };
    test_literal_expression(left.as_ref(), expected_left);
    assert_eq!(*operator, expected_operator);
    test_literal_expression(right.as_ref(), expected_right);
}

fn single_expression(program: &Program) -> &Expression {
    let [Statement::Expression { expression, .. }] = program.statements().as_slice() else {
        panic!("expected one expression statement: {program:?}");
    };
    expression
}

#[test]
fn parses_let_statements() {
    let tests = [
        ("let x = 5;", "x", ExpectedLiteral::Integer(5)),
        ("let y = true;", "y", ExpectedLiteral::Boolean(true)),
        ("let foobar = y;", "foobar", ExpectedLiteral::Identifier("y")),
    ];
    for (input, expected_name, expected_value) in tests {
        let program = parse(input);
        let [Statement::Let { name, value, .. }] = program.statements().as_slice() else {
            panic!("expected one let statement: {program:?}");
        };
        assert_eq!(name.value(), expected_name);
        test_literal_expression(value, expected_value);
    }
}

#[test]
fn parses_return_statements() {
    let tests = [("return 5;", 5), ("return 10;", 10), ("return 993322;", 993322)];
    for (input, expected_value) in tests {
        let program = parse(input);
        let [Statement::Return { value, .. }] = program.statements().as_slice() else {
            panic!("expected one return statement: {program:?}");
        };
        test_integer_literal(value, expected_value);
    }
}

#[test]
fn parses_identifier_expression() {
    let program = parse("foobar;");
    let Expression::Identifier(identifier) = single_expression(&program) else {
        panic!("expected one identifier expression: {program:?}");
    };
    assert_eq!(identifier.value(), "foobar");
    assert_eq!(identifier.token_literal(), "foobar");
}

#[test]
fn parses_integer_literal_expression() {
    let program = parse("5;");
    let Expression::IntegerLiteral { token, value } = single_expression(&program) else {
        panic!("expected one integer literal expression: {program:?}");
    };
    assert_eq!(*value, 5);
    assert_eq!(token.literal(), "5");
}

#[test]
fn parses_prefix_expressions() {
    let prefix_tests = [
        ("!5;", "!", Integer(5)),
        ("-15;", "-", Integer(15)),
        ("!true", "!", Boolean(true)),
        ("!false", "!", Boolean(false)),
    ];
    for (input, expected_operator, expected_value) in prefix_tests {
        let program = parse(input);
        test_prefix_expression(single_expression(&program), expected_operator, expected_value);
    }
}

#[test]
fn parses_infix_expressions() {
    let infix_tests = [
        ("5 + 5;", Integer(5), "+", Integer(5)),
        ("5 - 5;", Integer(5), "-", Integer(5)),
        ("5 * 5;", Integer(5), "*", Integer(5)),
        ("5 / 5;", Integer(5), "/", Integer(5)),
        ("5 > 5;", Integer(5), ">", Integer(5)),
        ("5 < 5;", Integer(5), "<", Integer(5)),
        ("5 == 5;", Integer(5), "==", Integer(5)),
        ("5 != 5;", Integer(5), "!=", Integer(5)),
        ("true == true", Boolean(true), "==", Boolean(true)),
        ("true != false", Boolean(true), "!=", Boolean(false)),
        ("false == false", Boolean(false), "==", Boolean(false)),
    ];
    for (input, expected_left, expected_operator, expected_right) in infix_tests {
        let program = parse(input);
        test_infix_expression(single_expression(&program), expected_left, expected_operator, expected_right);
    }
}

#[test]
fn parses_operator_precedence() {
    let tests = [
        ("-a * b", "((-a) * b)"),
        ("!-a", "(!(-a))"),
        ("a + b + c", "((a + b) + c)"),
        ("a + b - c", "((a + b) - c)"),
        ("a * b * c", "((a * b) * c)"),
        ("a * b / c", "((a * b) / c)"),
        ("a + b / c", "(a + (b / c))"),
        ("a + b * c + d / e - f", "(((a + (b * c)) + (d / e)) - f)"),
        ("3 + 4; -5 * 5", "(3 + 4)((-5) * 5)"),
        ("5 > 4 == 3 < 4", "((5 > 4) == (3 < 4))"),
        ("5 < 4 != 3 > 4", "((5 < 4) != (3 > 4))"),
        ("3 + 4 * 5 == 3 * 1 + 4 * 5", "((3 + (4 * 5)) == ((3 * 1) + (4 * 5)))"),
        ("true", "true"),
        ("false", "false"),
        ("3 > 5 == false", "((3 > 5) == false)"),
        ("3 < 5 == true", "((3 < 5) == true)"),
        ("1 + (2 + 3) + 4", "((1 + (2 + 3)) + 4)"),
        ("(5 + 5) * 2", "((5 + 5) * 2)"),
        ("2 / (5 + 5)", "(2 / (5 + 5))"),
        ("-(5 + 5)", "(-(5 + 5))"),
        ("!(true == true)", "(!(true == true))"),
        ("a + add(b * c) + d", "((a + add((b * c))) + d)"),
        (
            "add(a, b, 1, 2 * 3, 4 + 5, add(6, 7 * 8))",
            "add(a, b, 1, (2 * 3), (4 + 5), add(6, (7 * 8)))",
        ),
        ("add(a + b + c * d / f + g)", "add((((a + b) + ((c * d) / f)) + g))"),
        ("a * [1, 2, 3, 4][b * c] * d", "((a * ([1, 2, 3, 4])[(b * c)]) * d)"),
        (
            "add(a * b[2], b[1], 2 * [1, 2][1])",
            "add((a * (b)[2]), (b)[1], (2 * ([1, 2])[1]))",
        ),
    ];
    for test in tests.iter() {
        let program = parse(test.0);
        let actual = program.to_string();
        assert_eq!(actual, test.1, "expected={:?}, got={:?}", test.1, actual);
    }
}

#[test]
fn parses_boolean_expressions() {
    let tests = [("true;", true), ("false;", false)];
    for test in tests.iter() {
        let program = parse(test.0);
        let Expression::BooleanLiteral { value, .. } = single_expression(&program) else {
            panic!("expected one boolean expression: {program:?}");
        };
        assert_eq!(*value, test.1, "expected={:?}, got={:?}", test.1, *value);
    }
}

#[test]
fn parses_if_expression() {
    let program = parse("if (x < y) { x }");
    let Expression::IfLiteral { condition, consequence, alternative, .. } = single_expression(&program) else {
        panic!("expected one if expression: {program:?}");
    };
    test_infix_expression(condition, ExpectedLiteral::Identifier("x"), "<", ExpectedLiteral::Identifier("y"));
    let [Statement::Expression { expression, .. }] = consequence.statements().as_slice() else {
        panic!("expected one statement in consequence: {consequence:?}");
    };
    test_literal_expression(expression, ExpectedLiteral::Identifier("x"));
    assert!(alternative.is_none());
}

#[test]
fn parses_if_else_expression() {
    let program = parse("if (x < y) { x } else { y }");
    let Expression::IfLiteral { condition, consequence, alternative, .. } = single_expression(&program) else {
        panic!("expected one if expression: {program:?}");
    };
    test_infix_expression(condition, ExpectedLiteral::Identifier("x"), "<", ExpectedLiteral::Identifier("y"));
    let [Statement::Expression { expression, .. }] = consequence.statements().as_slice() else {
        panic!("expected one statement in consequence: {consequence:?}");
    };
    test_literal_expression(expression, ExpectedLiteral::Identifier("x"));
    let alternative = alternative.as_ref().expect("expected an alternative branch");
    let [Statement::Expression { expression, .. }] = alternative.statements().as_slice() else {
        panic!("expected one statement in alternative: {alternative:?}");
    };
    test_literal_expression(expression, ExpectedLiteral::Identifier("y"));
}

#[test]
fn parses_function_literal() {
    let program = parse("fn(x, y) { x + y; }");
    let Expression::FunctionLiteral { parameters, body, .. } = single_expression(&program) else {
        panic!("expected one function literal expression: {program:?}");
    };
    assert_eq!(parameters.len(), 2);
    test_literal_expression(&Expression::Identifier(parameters[0].duplicate()), ExpectedLiteral::Identifier("x"));
    test_literal_expression(&Expression::Identifier(parameters[1].duplicate()), ExpectedLiteral::Identifier("y"));
    let [Statement::Expression { expression, .. }] = body.statements().as_slice() else {
        panic!("expected one statement in function body: {body:?}");
    };
    test_infix_expression(expression, ExpectedLiteral::Identifier("x"), "+", ExpectedLiteral::Identifier("y"));
}

#[test]
fn parses_function_parameters() {
    let tests = [
        ("fn() {};", vec![]),
        ("fn(x) {};", vec!["x"]),
        ("fn(x, y, z) {};", vec!["x", "y", "z"]),
    ];
    for (input, expected_params) in tests {
        let program = parse(input);
        let Expression::FunctionLiteral { parameters, .. } = single_expression(&program) else {
            panic!("expected one function literal expression: {program:?}");
        };
        assert_eq!(parameters.len(), expected_params.len());
        for (param, expected) in parameters.iter().zip(expected_params) {
            test_literal_expression(&Expression::Identifier(param.duplicate()), ExpectedLiteral::Identifier(expected));
        }
    }
}

#[test]
fn parses_call_expression() {
    let program = parse("add(1, 2 * 3, 4 + 5);");
    let Expression::CallExpr { function, arguments, .. } = single_expression(&program) else {
        panic!("expected one call expression: {program:?}");
    };
    test_identifier(function, "add");
    assert_eq!(arguments.len(), 3);
    test_literal_expression(&arguments[0], ExpectedLiteral::Integer(1));
    test_infix_expression(&arguments[1], ExpectedLiteral::Integer(2), "*", ExpectedLiteral::Integer(3));
    test_infix_expression(&arguments[2], ExpectedLiteral::Integer(4), "+", ExpectedLiteral::Integer(5));
}

#[test]
fn parses_string_literal_expression() {
    let program = parse(r#""hello world";"#);
    let Expression::StringLiteral { value, .. } = single_expression(&program) else {
        panic!("expected one string literal expression: {program:?}");
    };
    assert_eq!(value, "hello world");
}

#[test]
fn parses_array_literal_expression() {
    let program = parse("[1, 2 * 2, 3 + 3]");
    let Expression::ArrayLiteral { elements, .. } = single_expression(&program) else {
        panic!("expected one array literal expression: {program:?}");
    };
    assert_eq!(elements.len(), 3);
    test_literal_expression(&elements[0], ExpectedLiteral::Integer(1));
    test_infix_expression(&elements[1], ExpectedLiteral::Integer(2), "*", ExpectedLiteral::Integer(2));
    test_infix_expression(&elements[2], ExpectedLiteral::Integer(3), "+", ExpectedLiteral::Integer(3));
}

#[test]
fn parses_index_expressions() {
    let program = parse("myArray[1 + 1]");
    let Expression::IndexExpr { left, index, .. } = single_expression(&program) else {
        panic!("expected one index expression: {program:?}");
    };
    test_identifier(left, "myArray");
    test_infix_expression(index, ExpectedLiteral::Integer(1), "+", ExpectedLiteral::Integer(1));
}

#[test]
fn parses_hash_literals_string_keys() {
    let program = parse(r#"{"one": 1, "two": 2, "three": 3}"#);
    let Expression::HashLiteral { pairs, .. } = single_expression(&program) else {
        panic!("expected one hash literal expression: {program:?}");
    };
    assert_eq!(pairs.len(), 3);
    let expected = HashMap::from([("one", 1), ("two", 2), ("three", 3)]);
    for pair in pairs {
        let Expression::StringLiteral { value: key, .. } = pair.key() else {
            panic!("expected string literal as hash key: {:?}", pair.key());
        };
        let expected_value = expected.get(key.as_str()).expect("unexpected key");
        test_integer_literal(pair.value(), *expected_value);
    }
}

#[test]
fn parses_empty_hash_literal() {
    let program = parse("{}");
    let Expression::HashLiteral { pairs, .. } = single_expression(&program) else {
        panic!("expected one hash literal expression: {program:?}");
    };
    assert_eq!(pairs.len(), 0);
}

#[test]
fn parses_hash_literals_with_expressions() {
    let program = parse(r#"{"one": 0 + 1, "two": 10 - 8, "three": 15 / 5}"#);
    let Expression::HashLiteral { pairs, .. } = single_expression(&program) else {
        panic!("expected one hash literal expression: {program:?}");
    };
    let expected = HashMap::from([
        ("one", (ExpectedLiteral::Integer(0), "+", ExpectedLiteral::Integer(1))),
        ("two", (ExpectedLiteral::Integer(10), "-", ExpectedLiteral::Integer(8))),
        ("three", (ExpectedLiteral::Integer(15), "/", ExpectedLiteral::Integer(5))),
    ]);
    for pair in pairs {
        let Expression::StringLiteral { value: key, .. } = pair.key() else {
            panic!("expected string literal as hash key: {:?}", pair.key());
        };
        let (expected_left, expected_operator, expected_right) = expected.get(key.as_str()).expect("unexpected key");
        test_infix_expression(pair.value(), *expected_left, expected_operator, *expected_right);
    }
}

#[test]
fn parses_macro_literal() {
    let program = parse("macro(x, y) { x + y; }");
    let Expression::MacroLiteral { parameters, body, .. } = single_expression(&program) else {
        panic!("expected one macro literal expression: {program:?}");
    };
    assert_eq!(parameters.len(), 2);
    test_literal_expression(&Expression::Identifier(parameters[0].duplicate()), ExpectedLiteral::Identifier("x"));
    test_literal_expression(&Expression::Identifier(parameters[1].duplicate()), ExpectedLiteral::Identifier("y"));
    let [Statement::Expression { expression, .. }] = body.statements().as_slice() else {
        panic!("expected one statement in macro body: {body:?}");
    };
    test_infix_expression(expression, ExpectedLiteral::Identifier("x"), "+", ExpectedLiteral::Identifier("y"));
}

#[test]
fn reports_a_missing_expression_and_a_bad_token() {
    let mut lexer = Lexer::new("let = 5;");
    let mut parser = Parser::new(&mut lexer);
    let _ = parser.parse_program();
    assert!(!parser.errors().is_empty());
    assert_eq!(parser.errors()[0], "expected next token to be IDENT, got ASSIGN instead");
}

#[test]
fn parser_takes_two_tokens_from_the_lexer() {
    let mut lexer = Lexer::new("a b c");
    {
        let parser = Parser::new(&mut lexer);
        assert!(parser.errors().is_empty());
    }
    assert_eq!(
        lexer.next_token(),
        monkey::token::Token::new(monkey::token::TokenType::IDENT, "c")
    );
    assert_eq!(
        lexer.next_token(),
        monkey::token::Token::new(monkey::token::TokenType::EOF, "")
    );
}
