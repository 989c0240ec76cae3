use embree_rust::registry::Registry;

#[test]
fn insert_then_get_returns_resource() {
    let mut r: Registry<i32> = Registry::new();
    let a = r.insert(10);
    let b = r.insert(20);
    assert_eq!(r.get(a), Some(&10));
    assert_eq!(r.get(b), Some(&20));
    assert_ne!(a, b);
}

#[test]
fn remove_returns_resource_and_invalidates_id() {
    let mut r: Registry<i32> = Registry::new();
    let a = r.insert(10);
    assert_eq!(r.remove(a), Some(10));
    assert_eq!(r.get(a), None);
    assert!(!r.contains(a));
    assert_eq!(r.remove(a), None);
}

#[test]
fn removed_id_never_resolves_after_slot_reuse() {
    let mut r: Registry<i32> = Registry::new();
    let a = r.insert(10);
    assert_eq!(r.remove(a), Some(10));
    let b = r.insert(30);
    // the freed slot is reused, but under a bumped generation
    assert_ne!(a, b);
    assert_eq!(b.slot, a.slot);
    assert_eq!(b.generation, a.generation + 1);
    assert_eq!(r.get(a), None);
    assert_eq!(r.get(b), Some(&30));
}

#[test]
fn replace_keeps_identifier_valid() {
    let mut r: Registry<i32> = Registry::new();
    let a = r.insert(10);
    assert_eq!(r.replace(a, 11), Some(10));
    assert_eq!(r.get(a), Some(&11));
}

#[test]
fn unknown_id_lookups_are_empty() {
    let mut r: Registry<i32> = Registry::new();
    let a = r.insert(10);
    let mut other: Registry<i32> = Registry::new();
    let _ = other.insert(1);
    let b = other.insert(2);
    // `b` was never issued by `r`: its slot does not exist there
    assert_eq!(r.remove(b), None);
    assert!(r.contains(a));
    assert!(!r.contains(b));
}
