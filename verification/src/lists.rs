//! Copies of lists.
use vstd::prelude::*;

verus! {

/// A list of the same elements.
pub fn copy_list<T: Copy>(list: &Vec<T>) -> (r: Vec<T>)
    ensures
        r@ == list@,
{
    let mut r: Vec<T> = Vec::new();
    for i in 0..list.len()
        invariant
            r@ =~= list@.take(i as int),
    {
        r.push(list[i]);
    }
    assert(list@.take(list@.len() as int) =~= list@);
    r
}

} // verus!
