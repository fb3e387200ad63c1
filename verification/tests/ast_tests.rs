use monkey::ast::{
    modify_expression, modify_program, modify_statement, BlockStatement, Expression, HashPair, Identifier,
    Modifier, Program, SExpr, Statement,
};
use monkey::lexer::Lexer;
use monkey::parser::Parser;
use monkey::token::{Token, TokenType};

fn parse_program(input: &str) -> Program {
    let mut lexer = Lexer::new(input);
    let mut parser = Parser::new(&mut lexer);
    let program = parser.parse_program();
    assert!(parser.errors().is_empty(), "{:?}", parser.errors());
    program
}

fn one_into_two(expression: Expression) -> Expression {
    match expression {
        Expression::IntegerLiteral { value: 1, .. } => {
            Expression::IntegerLiteral { token: Token::new(TokenType::INT, "2"), value: 2 }
        }
        other => other,
    }
}

struct TurnOneIntoTwo;

impl Modifier for TurnOneIntoTwo {
    fn replacement(&self, _expression: SExpr) -> SExpr {
        unreachable!("a proof-only function")
    }

    fn after(&self, _expression: SExpr) -> Self {
        unreachable!("a proof-only function")
    }

    fn modify(&mut self, expression: Expression) -> Expression {
        one_into_two(expression)
    }
}

struct Recorder {
    visited: Vec<String>,
}

impl Modifier for Recorder {
    fn replacement(&self, _expression: SExpr) -> SExpr {
        unreachable!("a proof-only function")
    }

    fn after(&self, _expression: SExpr) -> Self {
        unreachable!("a proof-only function")
    }

    fn modify(&mut self, expression: Expression) -> Expression {
        self.visited.push(expression.to_string());
        let expression = one_into_two(expression);
        if matches!(expression, Expression::InfixExpr { .. }) {
            Expression::BooleanLiteral { token: Token::new(TokenType::TRUE, "true"), value: true }
        } else {
            expression
        }
    }
}

#[test]
fn modifies_all_expression_children_in_place() {
    for (input, expected) in [
        ("1", "2"),
        ("-1", "-2"),
        ("1 + 1", "2 + 2"),
        ("if (1) { return 1; }", "if (2) { return 2; }"),
        ("if (1) { return 1; } else { return 1; }", "if (2) { return 2; } else { return 2; }"),
        ("fn(value) { return 1; }", "fn(value) { return 2; }"),
        ("fn(value) { return 1; }(1, 1)", "fn(value) { return 2; }(2, 2)"),
        ("[1, 1][1]", "[2, 2][2]"),
        ("{1: 1, 1 + 1: 1}", "{2: 2, 2 + 2: 2}"),
        ("[]", "[]"),
        ("{}", "{}"),
        ("fn() {}", "fn() {}"),
        ("[name, true, false, \"one\", 3]", "[name, true, false, \"one\", 3]"),
    ] {
        let mut program = parse_program(input);
        let expected = parse_program(expected);
        let [Statement::Expression { expression, .. }] = program.statements.as_mut_slice() else {
            panic!("expected one expression");
        };
        let [Statement::Expression { expression: expected, .. }] = expected.statements().as_slice() else {
            panic!("expected one expression");
        };
        modify_expression(expression, &mut TurnOneIntoTwo);
        assert_eq!(expression, expected, "{input}");
    }
}

#[test]
fn modifies_program_and_block_statements_in_place() {
    let input = "let value = 1; return 1; (1 + 1);";
    let expected = "let value = 2; return 2; (2 + 2);";
    let mut program = parse_program(input);
    modify_program(&mut program, &mut TurnOneIntoTwo);
    assert_eq!(program, parse_program(expected));

    let block = |input| {
        Statement::Block(BlockStatement::new(Token::new(TokenType::LBRACE, "{"), parse_program(input).statements))
    };
    let mut statement = block(input);
    modify_statement(&mut statement, &mut TurnOneIntoTwo);
    assert_eq!(statement, block(expected));
}

#[test]
fn visits_children_before_their_parent_and_can_replace_the_parent() {
    let mut program = parse_program("1 + 1;");
    let mut recorder = Recorder { visited: Vec::new() };
    modify_program(&mut program, &mut recorder);
    assert_eq!(recorder.visited, ["1", "1", "(2 + 2)"]);
    let [Statement::Expression { expression, .. }] = program.statements().as_slice() else {
        panic!("expected one expression");
    };
    assert_eq!(
        expression,
        &Expression::BooleanLiteral { token: Token::new(TokenType::TRUE, "true"), value: true }
    );
}

#[test]
fn formats_let_statement() {
    let mut program = Program::new();
    program.add_statement(Statement::Let {
        token: Token::new(TokenType::LET, "let"),
        name: Identifier::new(Token::new(TokenType::IDENT, "myVar"), "myVar"),
        value: Expression::Identifier(Identifier::new(Token::new(TokenType::IDENT, "anotherVar"), "anotherVar")),
    });
    assert_eq!(program.to_string(), "let myVar = anotherVar;");
}

#[test]
fn test_modify() {
    let one = || Expression::IntegerLiteral { token: Token::new(TokenType::INT, "1"), value: 1 };
    let two = || Expression::IntegerLiteral { token: Token::new(TokenType::INT, "2"), value: 2 };

    let mut modified_expr = one();
    modify_expression(&mut modified_expr, &mut TurnOneIntoTwo);
    assert_eq!(modified_expr, two());

    let infix = |left: Expression, right: Expression| Expression::InfixExpr {
        token: Token::new(TokenType::PLUS, "+"),
        left: Box::new(left),
        operator: "+".to_owned(),
        right: Box::new(right),
    };
    for (mut expression, expected) in [
        (infix(one(), two()), infix(two(), two())),
        (infix(two(), one()), infix(two(), two())),
        (infix(one(), one()), infix(two(), two())),
        (infix(two(), two()), infix(two(), two())),
    ] {
        modify_expression(&mut expression, &mut TurnOneIntoTwo);
        assert_eq!(expression, expected);
    }

    let prefix = |right: Expression| Expression::PrefixExpr {
        token: Token::new(TokenType::MINUS, "-"),
        operator: "-".to_owned(),
        right: Box::new(right),
    };
    for (mut expression, expected) in [(prefix(one()), prefix(two())), (prefix(two()), prefix(two()))] {
        modify_expression(&mut expression, &mut TurnOneIntoTwo);
        assert_eq!(expression, expected);
    }

    let index = |left: Expression, index: Expression| Expression::IndexExpr {
        token: Token::new(TokenType::LBRACKET, "["),
        left: Box::new(left),
        index: Box::new(index),
    };
    for (mut expression, expected) in [
        (index(one(), two()), index(two(), two())),
        (index(two(), one()), index(two(), two())),
        (index(one(), one()), index(two(), two())),
        (index(two(), two()), index(two(), two())),
    ] {
        modify_expression(&mut expression, &mut TurnOneIntoTwo);
        assert_eq!(expression, expected);
    }

    let if_literal = |condition: Expression, consequence: BlockStatement, alternative: Option<BlockStatement>| {
        Expression::IfLiteral {
            token: Token::new(TokenType::IF, "if"),
            condition: Box::new(condition),
            consequence,
            alternative,
        }
    };
    let block = |input| BlockStatement::new(Token::new(TokenType::LBRACE, "{"), parse_program(input).statements);
    for (mut expression, expected) in [
        (
            if_literal(one(), block("return 1;"), Some(block("return 1;"))),
            if_literal(two(), block("return 2;"), Some(block("return 2;"))),
        ),
        (
            if_literal(two(), block("return 1;"), Some(block("return 1;"))),
            if_literal(two(), block("return 2;"), Some(block("return 2;"))),
        ),
        (
            if_literal(one(), block("return 2;"), Some(block("return 1;"))),
            if_literal(two(), block("return 2;"), Some(block("return 2;"))),
        ),
        (
            if_literal(two(), block("return 2;"), Some(block("return 1;"))),
            if_literal(two(), block("return 2;"), Some(block("return 2;"))),
        ),
    ] {
        modify_expression(&mut expression, &mut TurnOneIntoTwo);
        assert_eq!(expression, expected);
    }

    let return_statement = |value: Expression| Statement::Return { token: Token::new(TokenType::RETURN, "return"), value };
    let mut modified_statement = return_statement(one());
    modify_statement(&mut modified_statement, &mut TurnOneIntoTwo);
    assert_eq!(modified_statement, return_statement(two()));

    let let_statement = |name: &str, value: Expression| Statement::Let {
        token: Token::new(TokenType::LET, "let"),
        name: Identifier::new(Token::new(TokenType::IDENT, name), name),
        value,
    };
    let mut modified_statement = let_statement("myVar", one());
    modify_statement(&mut modified_statement, &mut TurnOneIntoTwo);
    assert_eq!(modified_statement, let_statement("myVar", two()));

    let function_literal = |parameters: Vec<Identifier>, body: BlockStatement| Expression::FunctionLiteral {
        token: Token::new(TokenType::FUNCTION, "fn"),
        parameters,
        body,
    };
    let mut modified_expression = function_literal(
        vec![Identifier::new(Token::new(TokenType::IDENT, "value"), "value")],
        block("return 1;"),
    );
    modify_expression(&mut modified_expression, &mut TurnOneIntoTwo);
    assert_eq!(
        modified_expression,
        function_literal(vec![Identifier::new(Token::new(TokenType::IDENT, "value"), "value")], block("return 2;"))
    );

    let array_literal = |elements: Vec<Expression>| Expression::ArrayLiteral {
        token: Token::new(TokenType::LBRACKET, "["),
        elements,
    };
    let mut modified_expression = array_literal(vec![one(), two()]);
    modify_expression(&mut modified_expression, &mut TurnOneIntoTwo);
    assert_eq!(modified_expression, array_literal(vec![two(), two()]));

    let hash_literal = |pairs: Vec<HashPair>| Expression::HashLiteral { token: Token::new(TokenType::LBRACE, "{"), pairs };
    let mut modified_expression = hash_literal(vec![HashPair::new(one(), two()), HashPair::new(two(), one())]);
    modify_expression(&mut modified_expression, &mut TurnOneIntoTwo);
    assert_eq!(modified_expression, hash_literal(vec![HashPair::new(two(), two()), HashPair::new(two(), two())]));

    let program_with = |expr: Expression| Program {
        statements: vec![Statement::Expression { token: Token::new(TokenType::INT, "1"), expression: expr }],
    };
    let mut modified_program = program_with(one());
    modify_program(&mut modified_program, &mut TurnOneIntoTwo);
    assert_eq!(modified_program, program_with(two()));
}

#[test]
fn token_literals_of_the_tree() {
    let program = parse_program("let x = 5; return x;");
    assert_eq!(program.token_literal(), "let");
    assert_eq!(program.statements()[1].token_literal(), "return");
    assert_eq!(Program::new().token_literal(), "");
}
