use vstd::prelude::*;

verus! {

/// Puts each item into a slot of its own, in the same order, so that the items
/// can be taken out one by one, in any order.
pub fn into_slots<T>(items: Vec<T>) -> (slots: Vec<Option<T>>)
    ensures
        slots@.len() == items@.len(),
        forall|i: int| 0 <= i < items@.len() ==> #[trigger] slots@[i] == Some(items@[i]),
{
    let ghost all = items@;
    let mut items = items;
    let mut backwards: Vec<T> = Vec::new();
    while items.len() > 0
        invariant
            items@.len() + backwards@.len() == all.len(),
            forall|i: int| 0 <= i < items@.len() ==> #[trigger] items@[i] == all[i],
            forall|i: int|
                0 <= i < backwards@.len() ==> #[trigger] backwards@[i] == all[all.len() - 1 - i],
        decreases items@.len(),
    {
        match items.pop() {
            Some(item) => backwards.push(item),
            None => {},
        }
    }
    let mut slots: Vec<Option<T>> = Vec::new();
    while backwards.len() > 0
        invariant
            slots@.len() + backwards@.len() == all.len(),
            forall|i: int|
                0 <= i < backwards@.len() ==> #[trigger] backwards@[i] == all[all.len() - 1 - i],
            forall|i: int| 0 <= i < slots@.len() ==> #[trigger] slots@[i] == Some(all[i]),
        decreases backwards@.len(),
    {
        match backwards.pop() {
            Some(item) => slots.push(Some(item)),
            None => {},
        }
    }
    slots
}

} // verus!
