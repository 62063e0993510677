use pointers::refcell::RefCell;
use pointers::refcell::RefState;

#[test]
fn exclusive_denied_while_shared_outstanding() {
    let mut bc = RefCell::new(10);
    let r1 = bc.borrow();
    let r2 = bc.borrow();
    assert!(r1.is_some());
    assert!(r2.is_some());
    let m = bc.borrow_mut();
    assert!(m.is_none());
}

#[test]
fn shared_denied_while_exclusive_outstanding() {
    let mut bc = RefCell::new(10);
    let m = bc.borrow_mut();
    assert!(m.is_some());
    let r = bc.borrow();
    assert!(r.is_none());
    bc.release_mut(m.unwrap());
    let r2 = bc.borrow();
    assert!(r2.is_some());
}

#[test]
fn reads_and_writes_go_through_leases() {
    let mut bc = RefCell::new(10);
    let r = bc.borrow().expect("a fresh cell grants a shared lease");
    assert_eq!(*bc.read(&r), 10);
    bc.release(r);
    let m = bc.borrow_mut().expect("no lease is out");
    bc.write(&m, 11);
    assert_eq!(*bc.read_mut(&m), 11);
    bc.release_mut(m);
    let r = bc.borrow().expect("the exclusive lease was given back");
    assert_eq!(*bc.read(&r), 11);
    bc.release(r);
}

#[test]
fn shared_round_trip_returns_to_unshared() {
    let mut bc = RefCell::new(0);
    assert_eq!(bc.state(), RefState::Unshared);
    let a = bc.borrow().expect("first shared lease");
    let b = bc.borrow().expect("second shared lease");
    let c = bc.borrow().expect("third shared lease");
    assert_eq!(bc.state(), RefState::Shared(3));
    bc.release(b);
    assert_eq!(bc.state(), RefState::Shared(2));
    let d = bc.borrow().expect("a shared lease after a release");
    assert_eq!(bc.state(), RefState::Shared(3));
    bc.release(a);
    bc.release(d);
    assert_eq!(bc.state(), RefState::Shared(1));
    bc.release(c);
    assert_eq!(bc.state(), RefState::Unshared);
}

#[test]
fn exclusive_release_returns_to_unshared() {
    let mut bc = RefCell::new('x');
    let m = bc.borrow_mut().expect("no lease is out");
    assert_eq!(bc.state(), RefState::Exclusive);
    assert!(bc.borrow_mut().is_none());
    bc.release_mut(m);
    assert_eq!(bc.state(), RefState::Unshared);
}
