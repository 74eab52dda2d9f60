use super::event::{EventName, KorvinClosure};
use vstd::prelude::*;

verus! {

/// An event name together with the identity of the callback to run for it.
#[derive(Debug, Eq)]
pub struct EventListenerWrapper {
    pub name: EventName,
    pub closure: KorvinClosure,
}

impl View for EventListenerWrapper {
    type V = (Seq<char>, u64);

    open spec fn view(&self) -> (Seq<char>, u64) {
        (self.name@, self.closure.hash)
    }
}

impl Clone for EventListenerWrapper {
    fn clone(&self) -> (copy: Self)
        ensures
            copy == *self,
    {
        EventListenerWrapper { name: self.name.clone(), closure: self.closure }
    }
}

impl PartialEq for EventListenerWrapper {
    fn eq(&self, other: &Self) -> (same: bool) {
        self.name == other.name && self.closure.hash == other.closure.hash
    }
}

impl vstd::std_specs::cmp::PartialEqSpecImpl for EventListenerWrapper {
    open spec fn obeys_eq_spec() -> bool {
        true
    }

    open spec fn eq_spec(&self, other: &Self) -> bool {
        self@ == other@
    }
}

} // verus!
