use lazy_cogs::{Alc, Lc};

#[test]
fn lazy_clone_shares() {
    // Both aliases observe the sharing right after a lazy clone.
    let mut c = Lc::new(String::from("data"));
    assert!(c.is_mutable());
    let mut c2 = c.lazy();
    assert!(!c.is_mutable());
    assert!(!c2.is_mutable());
    assert!(c.ptr_eq(&c2));
    assert_eq!(c.read(), "data");
    assert_eq!(c2.read(), "data");
}

#[test]
fn exclusivity_returns_after_drop() {
    let mut c = Lc::new(1u32);
    let c2 = c.lazy();
    assert!(!c.is_mutable());
    drop(c2);
    assert!(c.is_mutable());
}

#[test]
fn read_mut_is_idempotent() {
    // Promotion happens once; a second mutable read does not reallocate.
    let mut c = Lc::new(vec![1, 2, 3]);
    let mut c2 = c.lazy();
    c2.read_mut().push(4);
    assert!(c2.is_mutable());
    c2.read_mut().push(5);
    assert_eq!(c2.read().len(), 5);
    assert_eq!(c.read().len(), 3);
}

#[test]
fn promotion_diverges_not_mutates() {
    // After promoting a shared cell, the original alias is unchanged.
    let mut c = Lc::new(String::from("old"));
    let mut c2 = c.lazy();
    *c2.read_mut() = String::from("new");
    assert!(c2.is_mutable());
    assert_eq!(c.read(), "old");
    assert_eq!(c2.read(), "new");
    assert!(!c.ptr_eq(&c2));
}

#[test]
fn eager_twice_gives_independent_allocations() {
    let c = Lc::new(String::from("value"));
    let mut e1 = c.eager();
    let mut e2 = c.eager();
    assert!(e1.is_mutable());
    assert!(e2.is_mutable());
    assert_eq!(e1.read(), e2.read());
    assert!(!e1.ptr_eq(&e2));
    assert!(!e1.ptr_eq(&c));
    assert!(!e2.ptr_eq(&c));
}

#[test]
fn write_rebinds_only_this_handle() {
    let mut c = Lc::new(10);
    let c2 = c.lazy();
    c.write(20);
    assert_eq!(*c.read(), 20);
    assert_eq!(*c2.read(), 10);
    assert!(!c.ptr_eq(&c2));
}

#[test]
fn take_copies_value() {
    let c = Lc::new(String::from("deep"));
    let copy = c.take();
    assert_eq!(copy, "deep");
    // The cell still holds its value afterwards.
    assert_eq!(c.read(), "deep");
}

#[test]
fn destroy_exclusive_moves_value_out() {
    let c = Lc::new(String::from("solo"));
    assert_eq!(c.destroy(), "solo");
}

#[test]
fn unwrap_works_shared_and_exclusive() {
    let c = Lc::new(String::from("a"));
    assert_eq!(c.unwrap(), "a");

    let mut c = Lc::new(String::from("b"));
    let c2 = c.lazy();
    assert_eq!(c.unwrap(), "b");
    assert_eq!(c2.read(), "b");
}

#[test]
fn atomic_cell_same_contract() {
    let mut c = Alc::new(String::from("data"));
    assert!(c.is_mutable());
    let mut c2 = c.lazy();
    assert!(!c.is_mutable());
    assert!(!c2.is_mutable());
    assert!(c.ptr_eq(&c2));

    *c2.read_mut() = String::from("other");
    assert!(c2.is_mutable());
    assert_eq!(c.read(), "data");
    assert_eq!(c2.read(), "other");

    let e1 = c.eager();
    let e2 = c.eager();
    assert!(!e1.ptr_eq(&e2));
    assert_eq!(e1.read(), e2.read());

    c.write(String::from("third"));
    assert_eq!(c.read(), "third");
    assert_eq!(c.take(), "third");
    assert_eq!(c.unwrap(), "third");
    assert_eq!(Alc::new(5u64).destroy(), 5);
}
