use lazy_cogs::LazyVec;

#[test]
fn vec_create() {
    let mut lv = LazyVec::<Box<str>>::from_vec(vec![
        "Hello".into(),
        "World".into(),
        "Take".into(),
        "a look at this".into(),
    ]);
    let mut lv2 = lv.lazy();
    let mut lv3 = lv2.lazy();

    let _ = lv.set(0, "Bye".into());
    let _ = lv2.set(2, "Give".into());
    let _ = lv3.set(1, "Värld".into());

    // Check if the element cells are the same, so we are safely reusing memory
    assert!(lv.get_lazy(1).unwrap().ptr_eq(&lv2.get_lazy(1).unwrap()));
    // Check if the element cells are not the same, so we cloned what was needed
    assert!(!lv.get_lazy(1).unwrap().ptr_eq(&lv3.get_lazy(1).unwrap()));
}

#[test]
fn vec_mutability_check() {
    let mut lv = LazyVec::from_vec(vec!["HI", "Goodbye", "Farwell", "Hello"]);
    let mut lv2 = lv.lazy();
    let mut lv3 = lv2.lazy();
    let mut lv4 = lv2.lazy();

    let _ = lv2.set(3, "Halo");
    let _ = lv.set(0, "Hej");

    assert!(lv.is_mutable());
    assert!(lv2.is_mutable());
    assert!(!lv3.is_mutable());
    assert!(!lv4.is_mutable());

    for i in 0..4 {
        println!(
            "{:?} : {:?} : {:?} : {:?}",
            lv.get(i),
            lv2.get(i),
            lv3.get(i),
            lv4.get(i)
        );
    }
}

#[test]
fn vec_iterators() {
    let lv = LazyVec::from_vec(
        [
            String::from("rust"),
            String::from("mojo"),
            String::from("zig"),
            String::from("carbon"),
            String::from("aura"),
        ]
        .to_vec(),
    );

    lv.iter()
        .into_iter()
        .map(|elem| elem.to_uppercase())
        .for_each(|elem| println!("{:?}", elem));

    lv.into_vec()
        .into_iter()
        .map(|elem| elem.chars().rev().collect::<String>())
        .for_each(|elem| println!("{:?}", elem));
}

#[test]
fn vec_collecting() {
    let v = vec!["Hi", "my", "name", "is", "something"];
    let lv: LazyVec<_> = LazyVec::from_vec(v);

    println!("{:?}", lv.iter());
}

#[test]
fn sibling_isolation() {
    let mut a = LazyVec::from_vec(vec![10, 20, 30]);
    let mut b = a.lazy();
    let mut c = b.lazy();

    let r = b.set(1, 99);
    assert!(r.is_ok());

    assert_eq!(a.get(1), Some(&20));
    assert_eq!(c.get(1), Some(&20));
    assert_eq!(b.get(1), Some(&99));

    // Untouched elements keep sharing their allocation.
    assert!(a.get_lazy(0).unwrap().ptr_eq(&b.get_lazy(0).unwrap()));
    assert!(c.get_lazy(0).unwrap().ptr_eq(&b.get_lazy(0).unwrap()));
    assert!(a.get_lazy(2).unwrap().ptr_eq(&b.get_lazy(2).unwrap()));
    // The written slot diverged.
    assert!(!a.get_lazy(1).unwrap().ptr_eq(&b.get_lazy(1).unwrap()));
}

#[test]
fn mutability_after_write() {
    let mut a = LazyVec::from_vec(vec![1, 2]);
    let mut b = a.lazy();
    let mut c = a.lazy();

    let r = a.set(0, 7);
    assert!(r.is_ok());

    // The writer rebound itself to a fresh backing vector and is now
    // the sole owner of it; the clones still share the old one.
    assert!(a.is_mutable());
    assert!(!b.is_mutable());
    assert!(!c.is_mutable());
    assert_eq!(a.get(0), Some(&7));
    assert_eq!(b.get(0), Some(&1));
    assert_eq!(c.get(0), Some(&1));

    // Once only one handle to the old backing vector is left, that
    // handle is mutable again.
    drop(c);
    assert!(b.is_mutable());
}

#[test]
fn out_of_range_signals() {
    let mut lv = LazyVec::from_vec(vec![1, 2, 3]);
    assert_eq!(lv.get(3), None);
    assert!(lv.get_lazy(3).is_none());
    assert_eq!(lv.set(3, 9), Err(()));
    assert_eq!(lv.get(0), Some(&1));
    assert!(lv.get_mut(3).is_none());

    let mut empty = LazyVec::<i32>::new();
    assert_eq!(empty.pop(), None);
    assert_eq!(empty.get(0), None);
}

#[test]
fn push_pop_order() {
    let mut lv = LazyVec::new();
    lv.push(1);
    lv.push(2);
    lv.push(3);
    assert_eq!(lv.pop(), Some(3));
    assert_eq!(lv.pop(), Some(2));
    assert_eq!(lv.pop(), Some(1));
    assert_eq!(lv.pop(), None);
}

#[test]
fn pop_shared_leaves_clone_alone() {
    let mut a = LazyVec::from_vec(vec![5, 6, 7]);
    let mut b = a.lazy();
    assert_eq!(b.pop(), Some(7));
    assert_eq!(b.get(2), None);
    assert_eq!(a.get(2), Some(&7));
    drop(a);
    assert_eq!(b.pop(), Some(6));
}

#[test]
fn insert_and_remove() {
    let mut lv = LazyVec::from_vec(vec![1, 3]);
    lv.insert(1, 2);
    assert_eq!(lv.get(0), Some(&1));
    assert_eq!(lv.get(1), Some(&2));
    assert_eq!(lv.get(2), Some(&3));

    assert_eq!(lv.remove(0), 1);
    assert_eq!(lv.get(0), Some(&2));

    let cell = lv.remove_lazy(1);
    assert_eq!(cell.unwrap(), 3);
    assert_eq!(lv.get(0), Some(&2));
    assert_eq!(lv.get(1), None);
}

#[test]
fn get_mut_promotes_only_target() {
    let mut a = LazyVec::from_vec(vec![
        String::from("x"),
        String::from("y"),
        String::from("z"),
    ]);
    let mut b = a.lazy();

    if let Some(p) = b.get_mut(1) {
        p.push('!');
    }
    assert_eq!(a.get(1).map(|s| s.as_str()), Some("y"));
    assert_eq!(b.get(1).map(|s| s.as_str()), Some("y!"));
    // Slot 0 was never written: still shared between both containers.
    assert!(a.get_lazy(0).unwrap().ptr_eq(&b.get_lazy(0).unwrap()));
}

#[test]
fn iter_mut_writes_every_slot() {
    let mut a = LazyVec::from_vec(vec![1, 2, 3]);
    let mut b = a.lazy();
    for p in b.iter_mut() {
        *p += 10;
    }
    assert_eq!(b.get(0), Some(&11));
    assert_eq!(b.get(1), Some(&12));
    assert_eq!(b.get(2), Some(&13));
    assert_eq!(a.get(0), Some(&1));
    assert_eq!(a.get(2), Some(&3));
}

#[test]
fn eager_clone_is_independent() {
    let mut a = LazyVec::from_vec(vec![4, 5]);
    let mut e = a.eager();
    assert!(e.is_mutable());
    let _ = e.set(0, 40);
    assert_eq!(a.get(0), Some(&4));
    assert_eq!(e.get(0), Some(&40));
}

#[test]
fn cell_level_conversions() {
    let a = LazyVec::from_vec(vec![1, 2, 3]);
    let cells = a.into_cells();
    assert_eq!(cells.len(), 3);
    let b = LazyVec::from_cells(cells);
    assert_eq!(b.get(0), Some(&1));
    assert_eq!(b.get(1), Some(&2));
    assert_eq!(b.get(2), Some(&3));

    // Building from lazily obtained cells preserves the sharing.
    let c = LazyVec::from_cells(vec![
        b.get_lazy(0).unwrap(),
        b.get_lazy(1).unwrap(),
    ]);
    assert!(c.get_lazy(0).unwrap().ptr_eq(&b.get_lazy(0).unwrap()));
    assert_eq!(c.get(1), Some(&2));
    assert_eq!(c.get(2), None);
}
