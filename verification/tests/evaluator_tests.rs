use monkey::ast::Program;
use monkey::environment::{Environment, Runtime};
use monkey::evaluator::{eval, try_eval, Fault};
use monkey::lexer::Lexer;
use monkey::object::{HashKey, Object, ObjectType};
use monkey::parser::Parser;

fn parse(input: &str) -> Program {
    let mut l = Lexer::new(input);
    let mut p = Parser::new(&mut l);
    let program = p.parse_program();
    assert!(p.errors().is_empty(), "{:?}", p.errors());
    program
}

fn test_eval(input: &str) -> Object {
    let program = parse(input);
    let mut runtime = Runtime::new();
    let env = runtime.add(Environment::new());
    eval(program, env, &mut runtime)
}

fn test_integer_object(obj: &Object, expected: i64) {
    match obj {
        Object::Integer(i) => assert_eq!(*i, expected),
        _ => panic!("object is not Integer. got={:?}", obj),
    }
}

fn test_null_object(obj: &Object) {
    assert!(matches!(obj, Object::Null), "object is not Null. got={obj:?}");
}

fn test_boolean_object(obj: &Object, expected: bool) {
    match obj {
        Object::Boolean(b) => assert_eq!(*b, expected),
        _ => panic!("object is not Boolean. got={:?}", obj),
    }
}

#[test]
fn test_eval_integer_expression() {
    let tests = [
        ("5", 5),
        ("10", 10),
        ("-5", -5),
        ("-10", -10),
        ("5 + 5 + 5 + 5 - 10", 10),
        ("2 * 2 * 2 * 2 * 2", 32),
        ("-50 + 100 + -50", 0),
        ("5 * 2 + 10", 20),
        ("5 + 2 * 10", 25),
        ("20 + 2 * -10", 0),
        ("50 / 2 * 2 + 10", 60),
        ("2 * (5 + 10)", 30),
        ("3 * 3 * 3 + 10", 37),
        ("3 * (3 * 3) + 10", 37),
        ("(5 + 10 * 2 + 15 /3) *2 + -10", 50),
    ];
    for (input, expected) in tests {
        let evaluated = test_eval(input);
        test_integer_object(&evaluated, expected);
    }
}

#[test]
fn test_eval_boolean_expression() {
    let tests = [
        ("true", true),
        ("false", false),
        ("1 < 2", true),
        ("1 > 2", false),
        ("1 < 1", false),
        ("1 > 1", false),
        ("1 == 1", true),
        ("1 != 1", false),
        ("1 == 2", false),
        ("1 != 2", true),
        ("true == true", true),
        ("false == false", true),
        ("true == false", false),
        ("true != false", true),
        ("false != true", true),
        ("(1 < 2) == true", true),
        ("(1 < 2) == false", false),
        ("(1 > 2) == true", false),
        ("(1 > 2) == false", true),
    ];
    for (input, expected) in tests {
        let evaluated = test_eval(input);
        test_boolean_object(&evaluated, expected);
    }
}

#[test]
fn test_bang_operator() {
    let tests = [
        ("!true", false),
        ("!false", true),
        ("!5", false),
        ("!!true", true),
        ("!!false", false),
        ("!!5", true),
    ];
    for (input, expected) in tests {
        let evaluated = test_eval(input);
        test_boolean_object(&evaluated, expected);
    }
}

#[test]
fn test_if_else_expressions() {
    let tests = [
        ("if (true) { 10 }", Some(10)),
        ("if (false) { 10 }", None),
        ("if (1) { 10 }", Some(10)),
        ("if (1 < 2) { 10 }", Some(10)),
        ("if (1 > 2) { 10 }", None),
        ("if (1 > 2) { 10 } else { 20 }", Some(20)),
        ("if (1 < 2) { 10 } else { 20 }", Some(10)),
    ];
    for (input, expected) in tests {
        let evaluated = test_eval(input);
        match expected {
            Some(expected) => test_integer_object(&evaluated, expected),
            None => assert_eq!(evaluated, Object::Null),
        }
    }
}

#[test]
fn test_return_statements() {
    let tests = [
        ("return 10;", 10),
        ("return 10; 9;", 10),
        ("return 2 * 5; 9;", 10),
        ("9; return 2 * 5; 9;", 10),
        ("if (10 > 1) { if (10 > 1) { return 10; } return 1; }", 10),
    ];
    for (input, expected) in tests {
        let evaluated = test_eval(input);
        test_integer_object(&evaluated, expected);
    }
}

#[test]
fn test_error_handling() {
    let tests = [
        ("5 + true;", "type mismatch: INTEGER + BOOLEAN"),
        ("5 + true; 5;", "type mismatch: INTEGER + BOOLEAN"),
        ("-true", "unknown operator: -BOOLEAN"),
        ("true + false;", "unknown operator: BOOLEAN + BOOLEAN"),
        ("5; true + false; 5", "unknown operator: BOOLEAN + BOOLEAN"),
        ("if (10 > 1) { true + false; }", "unknown operator: BOOLEAN + BOOLEAN"),
        (
            "if (10 > 1) { if (10 > 1) { return true + false; } return 1; }",
            "unknown operator: BOOLEAN + BOOLEAN",
        ),
        ("foobar", "identifier not found: foobar"),
        (r#""Hello" - "World""#, "unknown operator: STRING - STRING"),
        (r#"{"name": "Monkey"}[fn(x) { x }];"#, "unusable as hash key: FUNCTION"),
    ];
    for (input, expected_message) in tests {
        let evaluated = test_eval(input);
        match evaluated {
            Object::Error(message) => assert_eq!(message, expected_message),
            _ => panic!("no error object returned. got={:?}", evaluated),
        }
    }
}

#[test]
fn test_let_statements() {
    let tests = [
        ("let a = 5; a;", 5),
        ("let a = 5 * 5; a;", 25),
        ("let a = 5; let b = a; b;", 5),
        ("let a = 5; let b = a; let c = a + b + 5; c;", 15),
    ];
    for (input, expected) in tests {
        let evaluated = test_eval(input);
        test_integer_object(&evaluated, expected);
    }
}

#[test]
fn test_function_object() {
    let input = "fn(x) { x + 2; };";
    let Object::Function { parameters, body, .. } = test_eval(input) else {
        panic!("object is not Function. got={:?}", test_eval(input));
    };
    assert_eq!(parameters.len(), 1);
    assert_eq!(parameters[0].value(), "x");
    assert_eq!(body.to_string(), "(x + 2)");
}

#[test]
fn function_retains_shared_environment() {
    let mut lexer = Lexer::new("fn() { answer; };");
    let mut parser = Parser::new(&mut lexer);
    let program = parser.parse_program();
    assert!(parser.errors().is_empty(), "{:?}", parser.errors());

    let mut runtime = Runtime::new();
    let env = runtime.add(Environment::new());
    let Object::Function { env: captured, .. } = eval(program, env, &mut runtime) else {
        panic!("expected a function object");
    };

    assert_eq!(env, captured);
    runtime.set(env, "answer", Object::Integer(42));

    assert_eq!(runtime.get(captured, "answer"), Some(Object::Integer(42)));
}

#[test]
fn test_function_application() {
    let tests = [
        ("let identity = fn(x) { x; }; identity(5);", 5),
        ("let identity = fn(x) { return x; }; identity(5);", 5),
        ("let double = fn(x) { x * 2; }; double(5);", 10),
        ("let add = fn(x, y) { x + y; }; add(5, 5);", 10),
        ("let add = fn(x, y) { x + y; }; add(5 + 5, add(5, 5));", 20),
        ("fn(x) { x; }(5)", 5),
    ];
    for (input, expected) in tests {
        let evaluated = test_eval(input);
        test_integer_object(&evaluated, expected);
    }
}

#[test]
fn test_closures() {
    let input = "
        let newAdder = fn(x) {
            fn(y) { x + y };
        };
        let addTwo = newAdder(2);
        addTwo(2);
    ";
    let evaluated = test_eval(input);
    test_integer_object(&evaluated, 4);
}

#[test]
fn test_string_literal() {
    let input = r#""Hello World!""#;
    let evaluated = test_eval(input);
    if let Object::String(s) = evaluated {
        assert_eq!(s, "Hello World!");
    } else {
        panic!("object is not String. got={:?}", evaluated);
    }
}

#[test]
fn test_string_concatenation() {
    let input = r#""Hello" + " " + "World!""#;
    let evaluated = test_eval(input);
    if let Object::String(s) = evaluated {
        assert_eq!(s, "Hello World!");
    } else {
        panic!("object is not String. got={:?}", evaluated);
    }
}

#[test]
fn test_builtin_functions() {
    let tests = [
        (r#"len("")"#, Object::Integer(0)),
        (r#"len("four")"#, Object::Integer(4)),
        (r#"len("hello world")"#, Object::Integer(11)),
        (r#"len(1)"#, Object::Error("argument to `len` not supported, got INTEGER".to_string())),
        (r#"len("one", "two")"#, Object::Error("wrong number of arguments. got=2, want=1".to_string())),
    ];
    for (input, expected) in tests {
        let evaluated = test_eval(input);
        assert_eq!(evaluated, expected);
    }
}

#[test]
fn test_array_literals() {
    let input = "[1, 2 * 2, 3 + 3]";
    let evaluated = test_eval(input);
    let Object::Array(elements) = evaluated else {
        panic!("object is not Array. got={:?}", evaluated);
    };
    assert_eq!(elements.len(), 3);
    test_integer_object(&elements[0], 1);
    test_integer_object(&elements[1], 4);
    test_integer_object(&elements[2], 6);
}

#[test]
fn test_array_index_expressions() {
    let tests = [
        ("[1, 2, 3][0]", Some(1)),
        ("[1, 2, 3][1]", Some(2)),
        ("[1, 2, 3][2]", Some(3)),
        ("let i = 0; [1][i];", Some(1)),
        ("[1, 2, 3][1 + 1];", Some(3)),
        ("let myArray = [1, 2, 3]; myArray[2];", Some(3)),
        ("let myArray = [1, 2, 3]; myArray[0] + myArray[1] + myArray[2];", Some(6)),
        ("let myArray = [1, 2, 3]; let i = myArray[0]; myArray[i]", Some(2)),
        ("[1, 2, 3][3]", None),
        ("[1, 2, 3][-1]", None),
    ];
    for (input, expected) in tests {
        let evaluated = test_eval(input);
        match expected {
            Some(value) => test_integer_object(&evaluated, value),
            None => test_null_object(&evaluated),
        }
    }
}

#[test]
fn test_hash_literal() {
    let input = r#"let two = "two";
    {
        "one": 10 - 9,
        two: 1 + 1,
        "thr" + "ee": 6 / 2,
        4: 4,
        true: 5,
        false: 6
    }"#;
    let evaluated = test_eval(input);
    let Object::Hash(pairs) = evaluated else {
        panic!("object is not Hash. got={:?}", evaluated);
    };
    let expected: Vec<(HashKey, i64)> = vec![
        (Object::String("one".to_string()).hash_key().unwrap(), 1),
        (Object::String("two".to_string()).hash_key().unwrap(), 2),
        (Object::String("three".to_string()).hash_key().unwrap(), 3),
        (Object::Integer(4).hash_key().unwrap(), 4),
        (Object::Boolean(true).hash_key().unwrap(), 5),
        (Object::Boolean(false).hash_key().unwrap(), 6),
    ];
    assert_eq!(pairs.len(), expected.len());
    for (expected_key, expected_value) in expected {
        let pair = pairs.get(&expected_key).unwrap();
        test_integer_object(pair.value(), expected_value);
    }
}

#[test]
fn test_hash_index_expressions() {
    let tests = [
        (r#"{"foo": 5}["foo"]"#, Some(5)),
        (r#"{"foo": 5}["bar"]"#, None),
        (r#"let key = "foo"; {"foo": 5}[key]"#, Some(5)),
        (r#"{}["foo"]"#, None),
        (r#"{5: 5}[5]"#, Some(5)),
        (r#"{true: 5}[true]"#, Some(5)),
        (r#"{false: 5}[false]"#, Some(5)),
    ];
    for (input, expected) in tests {
        let evaluated = test_eval(input);
        match expected {
            Some(value) => test_integer_object(&evaluated, value),
            None => test_null_object(&evaluated),
        }
    }
}

#[test]
fn test_quote() {
    let tests = [
        ("quote(5)", "5"),
        ("quote(5 + 8)", "(5 + 8)"),
        ("quote(foobar)", "foobar"),
        ("quote(foobar + barfoo)", "(foobar + barfoo)"),
    ];
    for (input, expected) in tests {
        let evaluated = test_eval(input);
        let Object::Quote(expr) = evaluated else {
            panic!("object is not Quote. got={:?}", evaluated);
        };
        assert_eq!(expr.to_string(), expected);
    }
}

#[test]
fn test_quote_unquote() {
    let tests = [
        ("quote(unquote(4))", "4"),
        ("quote(unquote(4 + 4))", "8"),
        ("quote(8 + unquote(4 + 4))", "(8 + 8)"),
        ("quote(unquote(4 + 4) + 8)", "(8 + 8)"),
        ("quote(unquote(-4))", "-4"),
        ("quote(unquote(true))", "true"),
        ("quote(unquote(false))", "false"),
        ("quote(unquote(1 > 2))", "false"),
        ("let value = 8; quote(unquote(value));", "8"),
        ("quote(unquote(quote(4 + 4)))", "(4 + 4)"),
        ("let quoted = quote(4 + 4); quote(unquote(quoted) + unquote(2 + 2));", "((4 + 4) + 4)"),
        ("quote(add(unquote(1 + 1)))", "add(2)"),
        ("quote([unquote(1 + 1)])", "[2]"),
        ("quote(unquote(true))", "true"),
        ("quote(unquote(false))", "false"),
        ("quote({unquote(1 + 1): unquote(2 + 2)})", "{2: 4}"),
    ];
    for (input, expected) in tests {
        let evaluated = test_eval(input);
        let Object::Quote(expr) = evaluated else {
            panic!("object is not Quote. got={:?}", evaluated);
        };
        assert_eq!(expr.to_string(), expected);
    }
}

#[test]
fn preserves_unquote_calls_that_cannot_be_replaced() {
    for (input, expected) in [
        ("quote(unquote())", "unquote()"),
        ("quote(unquote(1, 2))", "unquote(1, 2)"),
        ("quote(unquote(missing))", "unquote(missing)"),
        ("quote(unquote(1 + true))", "unquote((1 + true))"),
        ("quote(unquote([1, 2]))", "unquote([1, 2])"),
        ("quote(unquote(if (false) { 1; }))", "unquote(if false 1)"),
        ("quote(\"unquote\"(4))", "\"unquote\"(4)"),
    ] {
        let evaluated = test_eval(input);
        let Object::Quote(expression) = evaluated else {
            panic!("expected Quote for {input}: {evaluated:?}");
        };
        assert_eq!(expression.to_string(), expected, "{input}");
    }
}

#[test]
fn builtins_work_on_arrays() {
    assert_eq!(test_eval("first([1, 2, 3])"), Object::Integer(1));
    assert_eq!(test_eval("last([1, 2, 3])"), Object::Integer(3));
    assert_eq!(test_eval("first([])"), Object::Null);
    assert_eq!(test_eval("rest([])"), Object::Null);
    assert_eq!(
        test_eval("rest([1, 2, 3])"),
        Object::Array(vec![Object::Integer(2), Object::Integer(3)])
    );
    assert_eq!(
        test_eval("push([1], 2)"),
        Object::Array(vec![Object::Integer(1), Object::Integer(2)])
    );
    assert_eq!(test_eval("len([1, 2, 3])"), Object::Integer(3));
    assert_eq!(test_eval("len(\"你好\")"), Object::Integer(6));
    assert_eq!(
        test_eval("first(1)"),
        Object::Error("argument to `first` must be ARRAY, got INTEGER".to_string())
    );
    assert_eq!(
        test_eval("push(1, 1)"),
        Object::Error("argument to `push` must be ARRAY, got INTEGER".to_string())
    );
    assert_eq!(
        test_eval("push([1])"),
        Object::Error("wrong number of arguments. got=1, want=2".to_string())
    );
}

#[test]
fn puts_prints_each_argument() {
    let program = parse("puts(1, \"two\", [3]);");
    let mut runtime = Runtime::new();
    let env = runtime.add(Environment::new());
    assert_eq!(eval(program, env, &mut runtime), Object::Null);
    assert_eq!(runtime.take_output(), vec!["1".to_string(), "two".to_string(), "[3]".to_string()]);
}

#[test]
fn calling_a_value_that_is_not_a_function_is_an_error() {
    assert_eq!(test_eval("5(1)"), Object::Error("not a function: INTEGER".to_string()));
    assert_eq!(
        test_eval("[1][\"a\"]"),
        Object::Error("index operator not supported: ARRAY".to_string())
    );
    assert_eq!(test_eval("1[0]"), Object::Error("index operator not supported: INTEGER".to_string()));
}

#[test]
fn faults_where_arithmetic_leaves_its_range() {
    let mut runtime = Runtime::new();
    let env = runtime.add(Environment::new());
    assert_eq!(try_eval(&parse("1 / 0"), env, &mut runtime), Err(Fault::DivisionByZero));
    assert_eq!(
        try_eval(&parse("9223372036854775807 + 1"), env, &mut runtime),
        Err(Fault::Overflow)
    );
    assert_eq!(try_eval(&parse("-7 / 2"), env, &mut runtime), Ok(Object::Integer(-3)));
}

#[test]
fn object_types_and_inspection() {
    assert_eq!(test_eval("5").object_type(), ObjectType::Integer);
    assert_eq!(test_eval("true").inspect(), "TRUE");
    assert_eq!(test_eval("[1, \"a\"]").inspect(), "[1, a]");
    assert_eq!(test_eval("{1: 2}").inspect(), "{1: 2}");
    assert_eq!(test_eval("fn(x) { x }").inspect(), "fn(x) {\nx\n}");
    assert_eq!(test_eval("quote(1 + 2)").inspect(), "QUOTE((1 + 2))");
    assert_eq!(test_eval("len").inspect(), "builtin function");
    assert_eq!(test_eval("foo").inspect(), "ERROR: identifier not found: foo");
}

#[test]
fn double_bang_gives_truthiness() {
    let tests = [
        ("!!0", true),
        ("!!\"\"", true),
        ("!!if (false) { 1 }", false),
        ("!![]", true),
        ("!!(1 < 2)", true),
    ];
    for (input, expected) in tests {
        let evaluated = test_eval(input);
        test_boolean_object(&evaluated, expected);
    }
    assert_eq!(
        test_eval("!!(-true)"),
        Object::Error("unknown operator: -BOOLEAN".to_string())
    );
}
