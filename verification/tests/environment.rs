//! The scope chain: definition, chain assignment, lookup, and the root
//! walk.

use raz::environment::Environment;
use raz::literals::LiteralValue;

fn number(n: i64) -> LiteralValue {
    LiteralValue::NumberValue(n)
}

#[test]
fn define_then_get() {
    let mut env = Environment::new();
    env.define(0, "x".to_string(), number(1));
    let got = env.get(0, "x").expect("x is defined");
    assert!(got.equals(&number(1)));
}

#[test]
fn get_of_absent_name_is_none() {
    let env = Environment::new();
    assert!(env.get(0, "missing").is_none());
}

#[test]
fn redefinition_silently_replaces() {
    let mut env = Environment::new();
    env.define(0, "x".to_string(), number(1));
    env.define(0, "x".to_string(), number(2));
    assert!(env.get(0, "x").unwrap().equals(&number(2)));
}

#[test]
fn assign_to_absent_name_fails() {
    let mut env = Environment::new();
    assert!(!env.assign(0, "missing", number(1)));
    assert!(env.get(0, "missing").is_none());
}

#[test]
fn assign_mutates_ancestor_not_child() {
    let mut env = Environment::new();
    env.define(0, "x".to_string(), number(1));
    let child = env.push_scope(0);
    assert!(env.assign(child, "x", number(2)));
    // the root binding changed; the child scope still has none of its own
    assert!(env.get(0, "x").unwrap().equals(&number(2)));
    // shadow the name in the child: the root keeps its value afterwards
    env.define(child, "x".to_string(), number(9));
    assert!(env.assign(child, "x", number(10)));
    assert!(env.get(child, "x").unwrap().equals(&number(10)));
    assert!(env.get(0, "x").unwrap().equals(&number(2)));
}

#[test]
fn lookup_walks_the_chain() {
    let mut env = Environment::new();
    env.define(0, "outer".to_string(), number(7));
    let a = env.push_scope(0);
    let b = env.push_scope(a);
    assert!(env.get(b, "outer").unwrap().equals(&number(7)));
}

#[test]
fn shadowing_is_per_scope() {
    let mut env = Environment::new();
    env.define(0, "x".to_string(), number(1));
    let child = env.push_scope(0);
    env.define(child, "x".to_string(), number(2));
    assert!(env.get(child, "x").unwrap().equals(&number(2)));
    assert!(env.get(0, "x").unwrap().equals(&number(1)));
}

#[test]
fn define_top_level_reaches_the_root() {
    let mut env = Environment::new();
    let a = env.push_scope(0);
    let b = env.push_scope(a);
    env.define_top_level(b, "r".to_string(), number(5));
    assert!(env.get(0, "r").unwrap().equals(&number(5)));
    // visible from the deepest scope through the chain as well
    assert!(env.get(b, "r").unwrap().equals(&number(5)));
}

#[test]
fn scope_count_grows_with_push() {
    let mut env = Environment::new();
    assert_eq!(env.scope_count(), 1);
    let a = env.push_scope(0);
    assert_eq!(a, 1);
    assert_eq!(env.scope_count(), 2);
}

#[test]
fn sibling_scopes_do_not_see_each_other() {
    let mut env = Environment::new();
    let a = env.push_scope(0);
    let b = env.push_scope(0);
    env.define(a, "only_a".to_string(), number(1));
    assert!(env.get(b, "only_a").is_none());
}
