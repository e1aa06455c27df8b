//! Turning a vector into a stack whose top is the vector's first element.

use vstd::prelude::*;

verus! {

/// `stack` holds the tail of `items` back to front: its top is the first
/// item that has not been taken yet.
pub open spec fn mirrors<T>(stack: Seq<T>, items: Seq<T>) -> bool {
    &&& stack.len() <= items.len()
    &&& forall|j: int| 0 <= j < stack.len() ==> #[trigger] stack[j] == items[items.len() - 1 - j]
}

/// The items of `items`, back to front.
pub fn reversed<T>(items: Vec<T>) -> (r: Vec<T>)
    ensures
        r@.len() == items@.len(),
        mirrors(r@, items@),
{
    let ghost all = items@;
    let mut rest = items;
    let mut stack: Vec<T> = Vec::new();
    while rest.len() > 0
        invariant
            rest@.len() + stack@.len() == all.len(),
            rest@ == all.subrange(0, rest@.len() as int),
            mirrors(stack@, all),
        decreases rest@.len(),
    {
        let ghost before = stack@;
        let ghost k = rest@.len();
        match rest.pop() {
            Some(item) => {
                stack.push(item);
                proof {
                    assert(item == all[k - 1]);
                    assert forall|j: int| 0 <= j < stack@.len() implies #[trigger] stack@[j]
                        == all[all.len() - 1 - j] by {
                        if j < before.len() {
                            assert(stack@[j] == before[j]);
                        }
                    }
                }
            },
            None => {},
        }
    }
    stack
}

} // verus!
