use pointers::rc::Rc;

#[test]
fn value_survives_while_a_handle_remains() {
    let mut p1 = Rc::new("x");
    p1.clone_handle();
    let p2 = p1.drop_handle();
    let p2 = p2.expect("a handle remains, so the block must survive");
    assert_eq!(*p2.value(), "x");
}

#[test]
fn freed_exactly_at_the_second_drop() {
    let mut p1 = Rc::new(1);
    p1.clone_handle();
    let p2 = p1.drop_handle();
    let p2 = p2.expect("the first drop must leave the block alive");
    let gone = p2.drop_handle();
    assert!(gone.is_none());
}

#[test]
fn count_tracks_handles() {
    let mut p = Rc::new(7);
    assert_eq!(p.count(), 1);
    p.clone_handle();
    assert_eq!(p.count(), 2);
    p.clone_handle();
    assert_eq!(p.count(), 3);
    let p = p.drop_handle().expect("two handles were left");
    assert_eq!(p.count(), 2);
    let p = p.drop_handle().expect("one handle was left");
    assert_eq!(p.count(), 1);
    assert_eq!(*p.value(), 7);
    assert!(p.drop_handle().is_none());
}

#[test]
fn sole_handle_frees_at_once() {
    let p = Rc::new(String::from("only"));
    assert!(p.drop_handle().is_none());
}
