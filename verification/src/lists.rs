//! Lists.

use vstd::prelude::*;

verus! {

/// Turns a list round.
pub fn reversed<T>(list: Vec<T>) -> (res: Vec<T>)
    ensures
        res@.len() == list@.len(),
        forall|j: int| 0 <= j < res@.len() ==> res@[j] == list@[list@.len() - 1 - j],
{
    let mut list = list;
    let ghost all = list@;
    let mut res: Vec<T> = Vec::new();
    while list.len() > 0
        invariant
            res@.len() + list@.len() == all.len(),
            forall|j: int| 0 <= j < list@.len() ==> list@[j] == all[j],
            forall|j: int| 0 <= j < res@.len() ==> res@[j] == all[all.len() - 1 - j],
        decreases list@.len(),
    {
        let last = list.pop().unwrap();
        res.push(last);
    }
    res
}

} // verus!
