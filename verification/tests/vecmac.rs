use pointers::vecmac::repeated;

#[test]
fn empty_vec() {
    let x: Vec<u32> = Vec::new();
    assert!(x.is_empty());
}

#[test]
fn single() {
    let mut x: Vec<u32> = Vec::with_capacity(1);
    x.push(42);
    assert_eq!(x.len(), 1);
    assert_eq!(x[0], 42);
}

#[test]
fn double() {
    let mut x: Vec<u32> = Vec::with_capacity(2);
    x.push(42);
    x.push(43);
    assert_eq!(x.len(), 2);
    assert_eq!(x[0], 42);
    assert_eq!(x[1], 43);
}

#[test]
fn trailing() {
    let mut x: Vec<u32> = Vec::with_capacity(9);
    x.push(1);
    x.push(2);
    x.push(3);
    x.push(4);
    x.push(5);
    x.push(6);
    x.push(7);
    x.push(8);
    x.push(9);
    let _x = x;
}

#[test]
fn clone_2() {
    let x: Vec<u32> = repeated(42, 2);
    assert_eq!(x.len(), 2);
    assert_eq!(x[0], 42);
    assert_eq!(x[1], 42);
}

#[test]
fn clone_2_nonliteral() {
    let mut y = Some(42);
    let x: Vec<u32> = repeated(y.take().unwrap(), 2);
    assert_eq!(x.len(), 2);
    assert_eq!(x[0], 42);
    assert_eq!(x[1], 42);
}

#[test]
fn repeated_zero_is_empty() {
    let x: Vec<u8> = repeated(7, 0);
    assert!(x.is_empty());
}
