use vstd::prelude::*;

verus! {

/// The list in the opposite order, so that its items can be moved out front to back.
pub(crate) fn reversed<T>(list: Vec<T>) -> (r: Vec<T>)
    ensures
        r@ == list@.reverse(),
{
    let mut list = list;
    let ghost whole = list@;
    let mut r: Vec<T> = Vec::new();
    while list.len() > 0
        invariant
            list@ == whole.take(list.len() as int),
            r@.len() + list@.len() == whole.len(),
            forall|i: int| 0 <= i < r@.len() ==> r@[i] == whole[whole.len() - 1 - i],
        decreases list.len(),
    {
        let last = list.pop().unwrap();
        r.push(last);
        assert(list@ =~= whole.take(list.len() as int));
    }
    assert(r@ =~= whole.reverse());
    r
}

} // verus!
