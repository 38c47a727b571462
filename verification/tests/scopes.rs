//! The scope chain: sharing by reference, shadowing, and assignment.

use kox::{Environment, KoxValue};

#[test]
fn a_fresh_arena_has_an_empty_global_scope() {
    let env = Environment::new();
    assert_eq!(env.scope_count(), 1);
    assert!(env.get(0, &"x".to_string()).is_none());
}

#[test]
fn lookup_walks_the_chain_outward() {
    let mut env = Environment::new();
    env.insert(0, "x".to_string(), KoxValue::Int(1));
    let child = env.child(0);
    assert!(matches!(env.get(child, &"x".to_string()), Some(KoxValue::Int(1))));
}

#[test]
fn a_child_scope_shares_its_parent_instead_of_copying() {
    let mut env = Environment::new();
    let child = env.child(0);
    // Bound into the parent only after the child was created: still visible
    // through the child, because the link is a reference, not a copy.
    env.insert(0, "x".to_string(), KoxValue::Int(5));
    assert!(matches!(env.get(child, &"x".to_string()), Some(KoxValue::Int(5))));
}

#[test]
fn insert_shadows_in_the_inner_scope_only() {
    let mut env = Environment::new();
    env.insert(0, "x".to_string(), KoxValue::Int(1));
    let child = env.child(0);
    env.insert(child, "x".to_string(), KoxValue::Int(2));
    assert!(matches!(env.get(child, &"x".to_string()), Some(KoxValue::Int(2))));
    assert!(matches!(env.get(0, &"x".to_string()), Some(KoxValue::Int(1))));
}

#[test]
fn assign_mutates_the_nearest_defining_scope() {
    let mut env = Environment::new();
    env.insert(0, "x".to_string(), KoxValue::Int(1));
    let child = env.child(0);
    assert!(env.assign(child, &"x".to_string(), KoxValue::Int(7)));
    assert!(matches!(env.get(0, &"x".to_string()), Some(KoxValue::Int(7))));
    assert!(matches!(env.get(child, &"x".to_string()), Some(KoxValue::Int(7))));
}

#[test]
fn assign_to_an_unbound_name_reports_failure_and_changes_nothing() {
    let mut env = Environment::new();
    let child = env.child(0);
    assert!(!env.assign(child, &"nope".to_string(), KoxValue::Int(7)));
    assert!(env.get(child, &"nope".to_string()).is_none());
}

#[test]
fn sibling_scopes_do_not_see_each_other() {
    let mut env = Environment::new();
    let a = env.child(0);
    let b = env.child(0);
    env.insert(a, "x".to_string(), KoxValue::Int(1));
    assert!(env.get(b, &"x".to_string()).is_none());
    assert!(matches!(env.get(a, &"x".to_string()), Some(KoxValue::Int(1))));
}

#[test]
fn a_later_binding_in_the_same_scope_wins() {
    let mut env = Environment::new();
    env.insert(0, "x".to_string(), KoxValue::Int(1));
    env.insert(0, "x".to_string(), KoxValue::Int(2));
    assert!(matches!(env.get(0, &"x".to_string()), Some(KoxValue::Int(2))));
}

#[test]
fn an_arena_copy_is_independent() {
    let mut env = Environment::new();
    env.insert(0, "x".to_string(), KoxValue::Int(1));
    let mut copy = env.dup();
    assert!(copy.assign(0, &"x".to_string(), KoxValue::Int(9)));
    assert!(matches!(copy.get(0, &"x".to_string()), Some(KoxValue::Int(9))));
    assert!(matches!(env.get(0, &"x".to_string()), Some(KoxValue::Int(1))));
}
