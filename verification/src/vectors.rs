use vstd::prelude::*;

verus! {

/// The items of `v` in the opposite order.
pub fn reversed<T>(v: Vec<T>) -> (r: Vec<T>)
    ensures
        r@.len() == v@.len(),
        forall|i: int| 0 <= i < v@.len() ==> r@[i] == v@[v@.len() - 1 - i],
{
    let mut rest = v;
    let mut out: Vec<T> = Vec::new();
    while rest.len() > 0
        invariant
            rest@.len() + out@.len() == v@.len(),
            forall|i: int| 0 <= i < rest@.len() ==> rest@[i] == v@[i],
            forall|i: int| 0 <= i < out@.len() ==> out@[i] == v@[v@.len() - 1 - i],
        decreases rest@.len(),
    {
        match rest.pop() {
            Some(item) => {
                out.push(item);
            },
            None => {},
        }
    }
    out
}

} // verus!
