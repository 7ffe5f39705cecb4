use lazy_cogs::AtomicLazyList;

#[test]
fn alist_create() {
    let mut lv = AtomicLazyList::<Box<str>>::from_vec(vec![
        "Hello".into(),
        "World".into(),
        "Take".into(),
        "a look at this".into(),
    ]);
    let mut lv2 = lv.lazy();
    let mut lv3 = lv2.lazy();

    let _ = lv.set(0, "Bye".into());
    let _ = lv2.set(2, "Give".into());
    let _ = lv3.set(1, "VÃ¤rld".into());

    // Check if the element cells are the same, so we are safely reusing memory
    assert!(lv.get_lazy(1).unwrap().ptr_eq(&lv2.get_lazy(1).unwrap()));
    // Check if the element cells are not the same, so we cloned what was needed
    assert!(!lv.get_lazy(1).unwrap().ptr_eq(&lv3.get_lazy(1).unwrap()));
}

#[test]
fn alist_mutability_check() {
    let mut lv = AtomicLazyList::from_vec(vec!["HI", "Goodbye", "Farwell", "Hello"]);
    let mut lv2 = lv.lazy();
    let mut lv3 = lv2.lazy();
    let mut lv4 = lv2.lazy();

    let _ = lv2.set(3, "Halo");
    let _ = lv.set(0, "Hej");

    assert!(lv.is_mutable());
    assert!(lv2.is_mutable());
    assert!(!lv3.is_mutable());
    assert!(!lv4.is_mutable());

    for i in 0..4 {
        println!(
            "{:?} : {:?} : {:?} : {:?}",
            lv.get(i),
            lv2.get(i),
            lv3.get(i),
            lv4.get(i)
        );
    }
}

#[test]
fn alist_iterators() {
    let lv = AtomicLazyList::from_vec(
        [
            String::from("rust"),
            String::from("mojo"),
            String::from("zig"),
            String::from("carbon"),
            String::from("aura"),
        ]
        .to_vec(),
    );

    lv.iter()
        .into_iter()
        .map(|elem| elem.to_uppercase())
        .for_each(|elem| println!("{:?}", elem));

    lv.into_vec()
        .into_iter()
        .map(|elem| elem.chars().rev().collect::<String>())
        .for_each(|elem| println!("{:?}", elem));
}

#[test]
fn alist_collecting() {
    let v = vec!["Hi", "my", "name", "is", "something"];
    let lv: AtomicLazyList<_> = AtomicLazyList::from_vec(v);

    println!("{:?}", lv.iter());
}

#[test]
fn alist_ends() {
    let mut l = AtomicLazyList::new();
    assert_eq!(l.front(), None);
    assert_eq!(l.back(), None);
    assert_eq!(l.pop_front(), None);
    assert_eq!(l.pop_back(), None);
    assert!(l.front_lazy().is_none());
    assert!(l.back_lazy().is_none());
    assert!(l.front_mut().is_none());
    assert!(l.back_mut().is_none());

    l.push_back(2);
    l.push_back(3);
    l.push_front(1);
    assert_eq!(l.front(), Some(&1));
    assert_eq!(l.back(), Some(&3));
    assert_eq!(l.get(1), Some(&2));

    if let Some(p) = l.front_mut() {
        *p = 10;
    }
    if let Some(p) = l.back_mut() {
        *p = 30;
    }
    assert_eq!(l.pop_front(), Some(10));
    assert_eq!(l.pop_back(), Some(30));
    assert_eq!(l.pop_back(), Some(2));
    assert_eq!(l.pop_back(), None);
}

#[test]
fn alist_lazy_pops_share() {
    let mut a = AtomicLazyList::from_vec(vec![1, 2, 3]);
    let mut b = a.lazy();

    let front_cell = a.front_lazy().unwrap();
    let popped = b.pop_front_lazy().unwrap();
    assert!(front_cell.ptr_eq(&popped));
    assert_eq!(popped.unwrap(), 1);

    // The sibling still sees the full list.
    assert_eq!(a.front(), Some(&1));
    assert_eq!(b.front(), Some(&2));

    let back_cell = a.back_lazy().unwrap();
    let popped_back = b.pop_back_lazy().unwrap();
    assert!(back_cell.ptr_eq(&popped_back));
    assert_eq!(popped_back.unwrap(), 3);
    assert_eq!(b.back(), Some(&2));
    assert_eq!(a.back(), Some(&3));
}

#[test]
fn alist_isolation_and_iter_mut() {
    let mut a = AtomicLazyList::from_vec(vec![10, 20, 30]);
    let mut b = a.lazy();
    let mut c = b.lazy();

    assert_eq!(b.set(1, 99), Ok(()));
    assert_eq!(a.get(1), Some(&20));
    assert_eq!(c.get(1), Some(&20));
    assert_eq!(b.get(1), Some(&99));
    assert!(a.get_lazy(0).unwrap().ptr_eq(&b.get_lazy(0).unwrap()));

    assert!(b.is_mutable());
    assert!(!a.is_mutable());

    for p in b.iter_mut() {
        *p += 1;
    }
    assert_eq!(b.get(0), Some(&11));
    assert_eq!(b.get(1), Some(&100));
    assert_eq!(b.get(2), Some(&31));
    assert_eq!(a.get(0), Some(&10));

    assert_eq!(b.set(9, 0), Err(()));
    assert!(b.get_mut(9).is_none());
    if let Some(p) = b.get_mut(0) {
        *p -= 1;
    }
    assert_eq!(b.get(0), Some(&10));

    let e = b.eager();
    assert_eq!(e.get(0), Some(&10));
    assert!(e.get_lazy(0).unwrap().ptr_eq(&b.get_lazy(0).unwrap()));
}

#[test]
fn alist_cell_level_conversions() {
    let a = AtomicLazyList::from_vec(vec![
        String::from("p"),
        String::from("q"),
    ]);
    let cells = a.into_cells();
    assert_eq!(cells.len(), 2);
    let b = AtomicLazyList::from_cells(cells);
    assert_eq!(b.front().map(|s| s.as_str()), Some("p"));
    assert_eq!(b.back().map(|s| s.as_str()), Some("q"));

    let c = AtomicLazyList::from_cells(vec![b.front_lazy().unwrap()]);
    assert!(c.front_lazy().unwrap().ptr_eq(&b.front_lazy().unwrap()));
}
