use rs_lox::{Compiler, Local};

#[test]
fn fresh_tracker_is_outside_every_scope() {
    let c = Compiler::init();
    assert!(!c.local_scope());
    assert_eq!(c.count(), 0);
    assert_eq!(c.depth(), 0);
    assert!(c.find_local("a").is_none());
    assert!(c.local_exists("a").is_some());
}

#[test]
fn scopes_nest() {
    let mut c = Compiler::init();
    c.begin_scope();
    assert!(c.local_scope());
    c.begin_scope();
    assert_eq!(c.depth(), 2);
    c.end_scope();
    assert!(c.local_scope());
    c.end_scope();
    assert!(!c.local_scope());
}

#[test]
fn local_is_found_by_its_slot() {
    let mut c = Compiler::init();
    c.begin_scope();
    c.add_local("a".to_string());
    c.add_local("b".to_string());
    assert_eq!(c.find_local("a"), Some(0));
    assert_eq!(c.find_local("b"), Some(1));
    assert_eq!(c.find_local("c"), None);
    assert_eq!(c.count(), 2);
}

#[test]
fn innermost_binding_is_found_first() {
    let mut c = Compiler::init();
    c.begin_scope();
    c.add_local("a".to_string());
    c.begin_scope();
    c.add_local("a".to_string());
    assert_eq!(c.find_local("a"), Some(1));
    assert!(c.should_pop_local());
    assert_eq!(c.find_local("a"), Some(0));
}

#[test]
fn name_exists_only_in_the_scope_that_declares_it() {
    let mut c = Compiler::init();
    c.begin_scope();
    c.add_local("a".to_string());
    // nothing where the scope declares the name
    assert!(c.local_exists("a").is_none());
    assert!(c.local_exists("b").is_some());
    c.begin_scope();
    // a scope inside may declare the name again
    assert!(c.local_exists("a").is_some());
    c.add_local("b".to_string());
    assert!(c.local_exists("b").is_none());
    assert!(c.local_exists("a").is_some());
}

#[test]
fn leaving_a_scope_drops_its_locals_only() {
    let mut c = Compiler::init();
    c.begin_scope();
    c.add_local("a".to_string());
    c.begin_scope();
    c.add_local("b".to_string());
    c.add_local("c".to_string());
    assert!(c.should_pop_local());
    assert!(c.should_pop_local());
    assert!(!c.should_pop_local());
    assert_eq!(c.count(), 1);
    c.end_scope();
    assert_eq!(c.find_local("a"), Some(0));
    assert_eq!(c.find_local("b"), None);
    assert_eq!(c.find_local("c"), None);
    assert!(c.should_pop_local());
    assert!(!c.should_pop_local());
    assert_eq!(c.count(), 0);
}

#[test]
fn tracker_holds_256_locals() {
    let mut c = Compiler::init();
    c.begin_scope();
    for i in 0..256 {
        c.add_local(format!("v{}", i));
    }
    assert_eq!(c.count(), 256);
    assert_eq!(c.find_local("v255"), Some(255));
    assert_eq!(c.find_local("v0"), Some(0));
}

#[test]
fn default_local_belongs_to_no_scope() {
    let local = Local::default();
    let copy = local.clone();
    assert_eq!(format!("{:?}", local), format!("{:?}", copy));
    assert!(format!("{:?}", local).contains("-1"));
}
