use denopy::instance::InstanceRegistry;

#[test]
fn second_request_returns_same_instance() {
    let mut registry = InstanceRegistry::new();
    let first = registry.get_or_create_instance(17);
    let second = registry.get_or_create_instance(17);
    assert_eq!(first, second);
    assert_eq!(registry.len(), 1);
}

#[test]
fn each_thread_gets_its_own_instance() {
    let mut registry = InstanceRegistry::new();
    let a = registry.get_or_create_instance(1);
    let b = registry.get_or_create_instance(2);
    let a_again = registry.get_or_create_instance(1);
    assert_eq!(a, 0);
    assert_eq!(b, 1);
    assert_eq!(a_again, a);
    assert_eq!(registry.len(), 2);
}

#[test]
fn instances_are_confined_to_their_thread() {
    let mut registry = InstanceRegistry::new();
    let a = registry.get_or_create_instance(5);
    assert!(registry.is_owned_by(a, 5));
    assert!(!registry.is_owned_by(a, 6));
    assert!(!registry.is_owned_by(a + 1, 5));
}
