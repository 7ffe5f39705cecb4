use lazy_cogs::{AtomicLazyList, AtomicLazyVec, LazyVec};

#[test]
fn round_trip_empty() {
    let lv = LazyVec::<i32>::from_vec(Vec::new());
    let out = lv.into_vec();
    assert_eq!(out, Vec::<i32>::new());
}

#[test]
fn round_trip_single() {
    let lv = LazyVec::from_vec(vec![String::from("only")]);
    let out = lv.into_vec();
    assert_eq!(out, vec![String::from("only")]);
}

#[test]
fn round_trip_many() {
    let original = vec![3, 1, 4, 1, 5, 9];
    let lv = LazyVec::from_vec(original.clone());
    let out = lv.into_vec();
    assert_eq!(out, original);

    let original = vec![String::from("a"), String::from("b"), String::from("c")];
    let av = AtomicLazyVec::from_vec(original.clone());
    assert_eq!(av.into_vec(), original);

    let al = AtomicLazyList::from_vec(original.clone());
    assert_eq!(al.into_vec(), original);
}

#[test]
fn round_trip_while_shared() {
    // Converting out while clones are alive falls back to deep copies
    // and still preserves order and values.
    let mut lv = LazyVec::from_vec(vec![7, 8, 9]);
    let b = lv.lazy();
    let out = b.into_vec();
    assert_eq!(out, vec![7, 8, 9]);
    assert_eq!(lv.get(0), Some(&7));
}
