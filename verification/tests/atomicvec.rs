use lazy_cogs::AtomicLazyVec;

#[test]
fn avec_create() {
    let mut lv = AtomicLazyVec::<Box<str>>::from_vec(vec![
        "Hello".into(),
        "World".into(),
        "Take".into(),
        "a look at this".into(),
    ]);
    let mut lv2 = lv.lazy();
    let mut lv3 = lv2.lazy();

    let _ = lv.set(0, "Bye".into());
    let _ = lv2.set(2, "Give".into());
    let _ = lv3.set(1, "Värld".into());

    // Check if the element cells are the same, so we are safely reusing memory
    assert!(lv.get_lazy(1).unwrap().ptr_eq(&lv2.get_lazy(1).unwrap()));
    // Check if the element cells are not the same, so we cloned what was needed
    assert!(!lv.get_lazy(1).unwrap().ptr_eq(&lv3.get_lazy(1).unwrap()));
}

#[test]
fn avec_mutability_check() {
    let mut lv = AtomicLazyVec::from_vec(vec!["HI", "Goodbye", "Farwell", "Hello"]);
    let mut lv2 = lv.lazy();
    let mut lv3 = lv2.lazy();
    let mut lv4 = lv2.lazy();

    let _ = lv2.set(3, "Halo");
    let _ = lv.set(0, "Hej");

    assert!(lv.is_mutable());
    assert!(lv2.is_mutable());
    assert!(!lv3.is_mutable());
    assert!(!lv4.is_mutable());

    for i in 0..4 {
        println!(
            "{:?} : {:?} : {:?} : {:?}",
            lv.get(i),
            lv2.get(i),
            lv3.get(i),
            lv4.get(i)
        );
    }
}

#[test]
fn avec_iterators() {
    let lv = AtomicLazyVec::from_vec(
        [
            String::from("rust"),
            String::from("mojo"),
            String::from("zig"),
            String::from("carbon"),
            String::from("aura"),
        ]
        .to_vec(),
    );

    lv.iter()
        .into_iter()
        .map(|elem| elem.to_uppercase())
        .for_each(|elem| println!("{:?}", elem));

    lv.into_vec()
        .into_iter()
        .map(|elem| elem.chars().rev().collect::<String>())
        .for_each(|elem| println!("{:?}", elem));
}

#[test]
fn avec_collecting() {
    let v = vec!["Hi", "my", "name", "is", "something"];
    let lv: AtomicLazyVec<_> = AtomicLazyVec::from_vec(v);

    println!("{:?}", lv.iter());
}

#[test]
fn avec_siblings_and_edits() {
    let mut a = AtomicLazyVec::from_vec(vec![10, 20, 30]);
    let mut b = a.lazy();

    assert_eq!(b.set(1, 99), Ok(()));
    assert_eq!(a.get(1), Some(&20));
    assert_eq!(b.get(1), Some(&99));
    assert!(a.get_lazy(0).unwrap().ptr_eq(&b.get_lazy(0).unwrap()));

    a.push(40);
    assert_eq!(a.get(3), Some(&40));
    assert_eq!(b.get(3), None);
    assert_eq!(a.pop(), Some(40));

    a.insert(0, 5);
    assert_eq!(a.get(0), Some(&5));
    assert_eq!(a.remove(0), 5);
    assert_eq!(a.remove_lazy(0).unwrap(), 10);
    assert_eq!(a.get(0), Some(&20));

    assert_eq!(a.set(99, 0), Err(()));
    assert!(a.get_mut(99).is_none());
    if let Some(p) = a.get_mut(0) {
        *p += 1;
    }
    assert_eq!(a.get(0), Some(&21));

    for p in a.iter_mut() {
        *p *= 2;
    }
    assert_eq!(a.get(0), Some(&42));
}
