use super::Value;
use vstd::prelude::*;

verus! {

/// The name of an event kind, such as `input` or `mousedown`.
#[derive(Debug, Eq, Hash)]
pub struct EventName(Value);

impl View for EventName {
    type V = Seq<char>;

    closed spec fn view(&self) -> Seq<char> {
        self.0@
    }
}

impl EventName {
    /// Copies `text` into a new event name.
    pub fn new(text: &str) -> (made: Self)
        ensures
            made@ == text@,
    {
        EventName(Value::new(text))
    }

    /// The characters of the name.
    pub fn as_ref(&self) -> (text: &str)
        ensures
            text@ == self@,
    {
        self.0.as_ref()
    }
}

impl Clone for EventName {
    fn clone(&self) -> (copy: Self)
        ensures
            copy == *self,
    {
        EventName(self.0.clone())
    }
}

impl PartialEq for EventName {
    fn eq(&self, other: &Self) -> (same: bool) {
        self.0 == other.0
    }
}

impl vstd::std_specs::cmp::PartialEqSpecImpl for EventName {
    open spec fn obeys_eq_spec() -> bool {
        true
    }

    open spec fn eq_spec(&self, other: &Self) -> bool {
        self@ == other@
    }
}

impl From<&str> for EventName {
    fn from(text: &str) -> (made: Self)
        ensures
            made@ == text@,
    {
        EventName(Value::new(text))
    }
}

impl vstd::std_specs::convert::FromSpecImpl<&str> for EventName {
    open spec fn obeys_from_spec() -> bool {
        false
    }

    open spec fn from_spec(text: &str) -> Self {
        arbitrary()
    }
}

/// An event callback, as far as the engine knows it.
///
/// The callback itself lives with the live document, which knows it by the
/// handle `closure`. What the engine compares is `hash`, the number that the
/// caller derived from the callback's content: two callbacks with the same
/// number are the same callback, whatever their handles.
#[derive(Debug, Clone, Copy, Eq)]
pub struct KorvinClosure {
    pub hash: u64,
    pub closure: u64,
}

impl PartialEq for KorvinClosure {
    fn eq(&self, other: &Self) -> (same: bool) {
        self.hash == other.hash
    }
}

impl vstd::std_specs::cmp::PartialEqSpecImpl for KorvinClosure {
    open spec fn obeys_eq_spec() -> bool {
        true
    }

    open spec fn eq_spec(&self, other: &Self) -> bool {
        self.hash == other.hash
    }
}

} // verus!
