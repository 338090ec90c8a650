//! The chain of scopes.

use crlox::environment::Environment;
use crlox::token::Token;
use crlox::token::TokenType;
use crlox::value::Value;

fn name(text: &str) -> Token {
    Token { token_type: TokenType::Id, lexeme: text.to_string(), literal: None, line: 1 }
}

fn number(v: &Result<Value, String>) -> u64 {
    match v {
        Ok(Value::Num(n)) => *n,
        other => panic!("{:?}", other),
    }
}

#[test]
fn get_of_an_undefined_name_fails_with_the_message() {
    let env = Environment::default();
    match env.get(name("x")) {
        Err(m) => assert_eq!(m, "Undefined variable x."),
        Ok(v) => panic!("{:?}", v),
    }
}

#[test]
fn define_then_get() {
    let mut env = Environment::default();
    env.define("a".to_string(), Value::Num(1));
    env.define("b".to_string(), Value::Str("s".to_string()));
    assert_eq!(number(&env.get(name("a"))), 1);
    assert!(matches!(env.get(name("b")), Ok(Value::Str(s)) if s == "s"));
}

#[test]
fn define_twice_overwrites() {
    let mut env = Environment::default();
    env.define("a".to_string(), Value::Num(1));
    env.define("a".to_string(), Value::Num(2));
    assert_eq!(number(&env.get(name("a"))), 2);
    assert_eq!(env.values.len(), 1);
}

#[test]
fn assign_then_get_gives_the_value_written() {
    let mut env = Environment::default();
    env.define("a".to_string(), Value::Nill);
    assert!(env.assign(name("a"), Value::Num(7)).is_ok());
    assert_eq!(number(&env.get(name("a"))), 7);
}

#[test]
fn assign_of_an_undefined_name_fails_and_changes_nothing() {
    let mut env = Environment::default();
    env.define("a".to_string(), Value::Num(1));
    match env.assign(name("b"), Value::Num(2)) {
        Err(m) => assert_eq!(m, "Undefined variable b."),
        Ok(()) => panic!("assigned"),
    }
    assert!(env.get(name("b")).is_err());
    assert_eq!(number(&env.get(name("a"))), 1);
}

#[test]
fn inner_scope_reads_and_writes_the_outer() {
    let mut outer = Environment::default();
    outer.define("a".to_string(), Value::Num(1));
    let mut inner = Environment::build_environment(Box::new(outer));
    assert_eq!(number(&inner.get(name("a"))), 1);
    assert!(inner.assign(name("a"), Value::Num(2)).is_ok());
    assert_eq!(inner.values.len(), 0);
    let outer = inner.leave();
    assert_eq!(number(&outer.get(name("a"))), 2);
}

#[test]
fn inner_name_shadows_and_does_not_leak() {
    let mut outer = Environment::default();
    outer.define("a".to_string(), Value::Num(1));
    let mut inner = Environment::build_environment(Box::new(outer));
    inner.define("a".to_string(), Value::Num(5));
    inner.define("x".to_string(), Value::Num(6));
    assert_eq!(number(&inner.get(name("a"))), 5);
    assert!(inner.assign(name("a"), Value::Num(8)).is_ok());
    let outer = inner.leave();
    assert_eq!(number(&outer.get(name("a"))), 1);
    assert!(outer.get(name("x")).is_err());
    assert!(outer.enclosing.is_none());
}

#[test]
fn leaving_the_global_scope_gives_it_back() {
    let mut env = Environment::default();
    env.define("a".to_string(), Value::Num(1));
    let env = env.leave();
    assert_eq!(number(&env.get(name("a"))), 1);
}

#[test]
fn unwind_gives_the_global_scope() {
    let mut global = Environment::default();
    global.define("g".to_string(), Value::Num(1));
    let mut one = Environment::build_environment(Box::new(global));
    one.define("a".to_string(), Value::Num(2));
    let two = Environment::build_environment(Box::new(one));
    let root = two.unwind();
    assert!(root.enclosing.is_none());
    assert_eq!(number(&root.get(name("g"))), 1);
    assert!(root.get(name("a")).is_err());
}
