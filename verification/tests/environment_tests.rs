use monkey::environment::{Environment, Runtime};
use monkey::object::Object;

#[test]
fn a_read_gives_back_the_last_write() {
    let mut runtime = Runtime::new();
    let env = runtime.add(Environment::new());
    assert_eq!(runtime.set(env, "a", Object::Integer(1)), Object::Integer(1));
    runtime.set(env, "a", Object::Integer(2));
    runtime.set(env, "b", Object::Integer(3));
    assert_eq!(runtime.get(env, "a"), Some(Object::Integer(2)));
    assert_eq!(runtime.get(env, "b"), Some(Object::Integer(3)));
    assert_eq!(runtime.get(env, "c"), None);
}

#[test]
fn an_inner_scope_sees_the_outer_and_hides_it() {
    let mut runtime = Runtime::new();
    let outer = runtime.add(Environment::new());
    let inner = runtime.add_enclosed(outer);
    runtime.set(outer, "x", Object::Integer(1));
    runtime.set(outer, "y", Object::Integer(2));
    runtime.set(inner, "x", Object::Integer(10));
    assert_eq!(runtime.get(inner, "x"), Some(Object::Integer(10)));
    assert_eq!(runtime.get(inner, "y"), Some(Object::Integer(2)));
    assert_eq!(runtime.get(outer, "x"), Some(Object::Integer(1)));
    assert_eq!(runtime.len(), 2);
}

#[test]
fn a_detached_scope_reads_its_own_and_the_enclosing_bindings() {
    let mut runtime = Runtime::new();
    let outer = runtime.add(Environment::new());
    runtime.set(outer, "x", Object::Integer(1));
    let mut scope = Environment::new_enclosed(outer);
    assert_eq!(scope.set("y", Object::Boolean(true)), Object::Boolean(true));
    assert_eq!(scope.get(&runtime, "y"), Some(Object::Boolean(true)));
    assert_eq!(scope.get(&runtime, "x"), Some(Object::Integer(1)));
    assert_eq!(Environment::new().get(&runtime, "x"), None);
}

#[test]
fn running_a_program_keeps_every_scope_and_printed_line() {
    let mut lexer = monkey::lexer::Lexer::new("puts(1); let f = fn(x) { puts(x); x }; f(2); f(3);");
    let mut parser = monkey::parser::Parser::new(&mut lexer);
    let program = parser.parse_program();
    let mut runtime = Runtime::new();
    let env = runtime.add(Environment::new());
    runtime.set(env, "kept", Object::Integer(0));
    let before = runtime.len();
    assert_eq!(monkey::evaluator::eval(program, env, &mut runtime), Object::Integer(3));
    assert_eq!(runtime.len(), before + 2);
    assert_eq!(runtime.get(env, "kept"), Some(Object::Integer(0)));
    assert_eq!(runtime.take_output(), vec!["1".to_string(), "2".to_string(), "3".to_string()]);
}
