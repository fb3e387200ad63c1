use monkey::ast::Program;
use monkey::environment::{Environment, EnvironmentRef, Runtime};
use monkey::evaluator::eval;
use monkey::lexer::Lexer;
use monkey::macro_expansion::{define_macros, expand_macros};
use monkey::object::Object;
use monkey::parser::Parser;

fn parse(input: &str) -> Program {
    let mut lexer = Lexer::new(input);
    let mut parser = Parser::new(&mut lexer);
    let program = parser.parse_program();
    assert!(parser.errors().is_empty(), "{:?}", parser.errors());
    program
}

fn environment(runtime: &mut Runtime) -> EnvironmentRef {
    runtime.add(Environment::new())
}

#[test]
fn test_macro_definition() {
    let mut program = parse(
        "let number = 1;
         let mymacro = macro(x, y) { x + y; };
         let another = macro() { quote(1); };
         let function = fn(x, y) { x + y; };",
    );
    let mut runtime = Runtime::new();
    let env = environment(&mut runtime);
    define_macros(&mut program, env, &mut runtime);
    assert_eq!(program, parse("let number = 1; let function = fn(x, y) { x + y; };"));
    assert!(runtime.get(env, "number").is_none());
    assert!(runtime.get(env, "function").is_none());
    assert!(matches!(runtime.get(env, "another"), Some(Object::Macro { .. })));

    let Some(Object::Macro { parameters, body, env: captured }) = runtime.get(env, "mymacro") else {
        panic!("expected mymacro to be a macro");
    };
    assert_eq!(parameters.iter().map(|parameter| parameter.value()).collect::<Vec<_>>(), ["x", "y"]);
    assert_eq!(body.to_string(), "(x + y)");
    assert_eq!(captured, env);
}

#[test]
fn test_macro_expansion() {
    for (input, expected) in [
        ("let infixExpression = macro() { quote(1 + 2); }; infixExpression();", "1 + 2"),
        (
            "let reverse = macro(a, b) { quote(unquote(b) - unquote(a)); }; reverse(2 + 2, 10 - 5);",
            "(10 - 5) - (2 + 2)",
        ),
        (
            "let identity = macro(value) { quote(unquote(value)); }; identity(missing + 1);",
            "missing + 1",
        ),
        ("let one = macro() { return quote(1); }; [one(), one()];", "[1, 1]"),
        (
            "let one = macro() { quote(1); }; let value = one(); fn() { return one(); };",
            "let value = 1; fn() { return 1; };",
        ),
        (
            "let unless = macro(condition, consequence, alternative) { quote(if (!(unquote(condition))) { unquote(consequence); } else { unquote(alternative); }); }; unless(10 > 5, puts(\"not greater\"), puts(\"greater\"));",
            "if (!(10 > 5)) { puts(\"not greater\"); } else { puts(\"greater\"); }",
        ),
    ] {
        let mut program = parse(input);
        let mut runtime = Runtime::new();
        let env = environment(&mut runtime);
        define_macros(&mut program, env, &mut runtime);
        expand_macros(&mut program, env, &mut runtime).unwrap();
        assert_eq!(program.to_string(), parse(expected).to_string(), "{input}");
    }
}

#[test]
fn leaves_non_macro_calls_unchanged() {
    let input = "let function = fn(value) { value; }; function(1); missing(2);";
    let mut program = parse(input);
    let mut runtime = Runtime::new();
    let env = environment(&mut runtime);
    runtime.set(env, "function", Object::Integer(7));
    define_macros(&mut program, env, &mut runtime);
    expand_macros(&mut program, env, &mut runtime).unwrap();
    assert_eq!(program, parse(input));
}

#[test]
fn uses_the_definition_environment_without_leaking_parameters() {
    let mut runtime = Runtime::new();
    let defining_env = environment(&mut runtime);
    runtime.set(defining_env, "value", Object::Integer(9));
    let mut definitions = parse(
        "let value_macro = macro() { quote(unquote(value)); }; let identity = macro(value) { quote(unquote(value)); };",
    );
    define_macros(&mut definitions, defining_env, &mut runtime);
    let calling_env = environment(&mut runtime);
    let value_macro = runtime.get(defining_env, "value_macro").unwrap();
    runtime.set(calling_env, "value_macro", value_macro);
    runtime.set(calling_env, "value", Object::Integer(99));
    let mut program = parse("value_macro();");
    expand_macros(&mut program, calling_env, &mut runtime).unwrap();
    assert_eq!(program.to_string(), "9");

    let mut program = parse("identity(1); identity(2);");
    expand_macros(&mut program, defining_env, &mut runtime).unwrap();
    assert_eq!(program.to_string(), parse("1; 2;").to_string());
    assert_eq!(runtime.get(defining_env, "value"), Some(Object::Integer(9)));
}

#[test]
fn reports_invalid_macro_calls() {
    for (input, expected) in [
        (
            "let identity = macro(value) { quote(unquote(value)); }; identity();",
            "wrong number of arguments. got=0, want=1",
        ),
        (
            "let identity = macro(value) { quote(unquote(value)); }; identity(1, 2);",
            "wrong number of arguments. got=2, want=1",
        ),
        ("let invalid = macro() { 1; }; invalid();", "macro must return QUOTE, got INTEGER"),
        ("let invalid = macro() { missing; }; invalid();", "identifier not found: missing"),
        ("let invalid = macro() {}; invalid();", "macro must return QUOTE, got NULL"),
    ] {
        let mut program = parse(input);
        let mut runtime = Runtime::new();
        let env = environment(&mut runtime);
        define_macros(&mut program, env, &mut runtime);
        assert_eq!(expand_macros(&mut program, env, &mut runtime), Err(expected.to_owned()), "{input}");
    }
}

#[test]
fn evaluates_the_expanded_program() {
    let mut program = parse(
        "let reverse = macro(a, b) { quote(unquote(b) - unquote(a)); }; reverse(2 + 2, 10 - 5);",
    );
    let mut runtime = Runtime::new();
    let macro_env = environment(&mut runtime);
    define_macros(&mut program, macro_env, &mut runtime);
    expand_macros(&mut program, macro_env, &mut runtime).unwrap();
    let env = environment(&mut runtime);
    assert_eq!(eval(program, env, &mut runtime), Object::Integer(1));
}

#[test]
fn stops_replacing_after_the_first_failure() {
    let mut program = parse("let bad = macro() { 1; }; let good = macro() { quote(2); }; bad(); good();");
    let mut runtime = Runtime::new();
    let env = environment(&mut runtime);
    define_macros(&mut program, env, &mut runtime);
    assert_eq!(
        expand_macros(&mut program, env, &mut runtime),
        Err("macro must return QUOTE, got INTEGER".to_owned())
    );
    assert_eq!(program.to_string(), "bad()good()");
}

#[test]
fn defining_macros_twice_changes_nothing() {
    let mut program = parse(
        "let a = macro(x) { quote(unquote(x)); };
         let b = 2;
         let a = macro() { quote(3); };",
    );
    let mut runtime = Runtime::new();
    let env = environment(&mut runtime);
    define_macros(&mut program, env, &mut runtime);
    let kept = program.to_string();
    let scopes = runtime.len();
    let a = runtime.get(env, "a");
    assert!(matches!(&a, Some(Object::Macro { parameters, .. }) if parameters.is_empty()));
    define_macros(&mut program, env, &mut runtime);
    assert_eq!(program.to_string(), kept);
    assert_eq!(program, parse("let b = 2;"));
    assert_eq!(runtime.len(), scopes);
    assert_eq!(runtime.get(env, "a"), a);
    assert!(runtime.get(env, "b").is_none());
}
