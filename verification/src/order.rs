//! Putting records that arrive newest first into the order of time.

use vstd::prelude::*;

verus! {

/// The items of `items` in the opposite order: what was newest first is
/// oldest first.
pub fn reversed<T: Copy>(items: &[T]) -> (r: Vec<T>)
    ensures
        r@ == items@.reverse(),
{
    let n: usize = items.len();
    let mut r: Vec<T> = Vec::new();
    let mut i: usize = n;
    while i > 0
        invariant
            n == items@.len(),
            i <= n,
            r@.len() == n - i,
            forall|k: int| 0 <= k < r@.len() ==> r@[k] == items@[n - 1 - k],
        decreases i,
    {
        i = i - 1;
        r.push(items[i]);
    }
    r
}

} // verus!
