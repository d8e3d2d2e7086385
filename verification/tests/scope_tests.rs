use solar_core::scope::Scope;

#[test]
fn scope_slots_are_sequential() {
    let mut s = Scope::new();
    assert_eq!(s.len(), 0);
    assert_eq!(s.push(String::from("x")), 0);
    assert_eq!(s.push(String::from("y")), 1);
    assert_eq!(s.push(String::from("z")), 2);
    assert_eq!(s.len(), 3);
}

#[test]
fn scope_shadowing_and_reversion() {
    let mut s = Scope::new();
    s.push(String::from("x"));
    s.push(String::from("y"));
    // An inner binding of the same name shadows the outer one.
    let inner = s.push(String::from("x"));
    assert_eq!(inner, 2);
    assert_eq!(s.get(&String::from("x")), Some(2));
    assert_eq!(s.get(&String::from("y")), Some(1));
    // Popping the inner binding reverts lookup to the outer one.
    s.pop();
    assert_eq!(s.get(&String::from("x")), Some(0));
    assert_eq!(s.get(&String::from("y")), Some(1));
    assert_eq!(s.get(&String::from("w")), None);
}

#[test]
fn scope_deep_nesting_reverts_at_every_depth() {
    let mut s = Scope::new();
    s.push(String::from("a"));
    for depth in 1..10usize {
        let slot = s.push(String::from("a"));
        assert_eq!(slot, depth);
        assert_eq!(s.get(&String::from("a")), Some(depth));
    }
    for depth in (1..10usize).rev() {
        assert_eq!(s.get(&String::from("a")), Some(depth));
        s.pop();
    }
    assert_eq!(s.get(&String::from("a")), Some(0));
}
