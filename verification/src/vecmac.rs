//! A vector-filling constructor.

use vstd::prelude::*;

verus! {

/// A vector of `count` copies of `value`: the fill-by-count companion of
/// writing the elements out one by one.
pub fn repeated<T: Copy>(value: T, count: usize) -> (v: Vec<T>)
    ensures
        v@.len() == count,
        forall|i: int| 0 <= i < count ==> v@[i] == value,
{
    let mut v: Vec<T> = Vec::new();
    let mut k: usize = 0;
    while k < count
        invariant
            k <= count,
            v@.len() == k,
            forall|i: int| 0 <= i < k ==> v@[i] == value,
        decreases count - k,
    {
        v.push(value);
        k = k + 1;
    }
    v
}

} // verus!
