//! Lists of anything.

use vstd::prelude::*;

verus! {

/// The items of a list from its end to its start.
pub fn reversed<T>(items: Vec<T>) -> (r: Vec<T>)
    ensures
        r@ == items@.reverse(),
{
    let ghost all = items@;
    let mut left = items;
    let mut turned: Vec<T> = Vec::new();
    while left.len() > 0
        invariant
            left@.len() <= all.len(),
            left@ == all.take(left@.len() as int),
            turned@ =~= all.skip(left@.len() as int).reverse(),
        decreases left@.len(),
    {
        if let Some(item) = left.pop() {
            turned.push(item);
        }
    }
    assert(all.skip(0) =~= all);
    turned
}

} // verus!
