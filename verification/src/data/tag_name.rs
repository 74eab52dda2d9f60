use super::Value;
use vstd::prelude::*;

verus! {

/// The name of an element kind, such as `div` or `input`.
#[derive(Debug, Eq, Hash)]
pub struct TagName(Value);

impl View for TagName {
    type V = Seq<char>;

    closed spec fn view(&self) -> Seq<char> {
        self.0@
    }
}

impl TagName {
    /// Copies `text` into a new name or value.
    pub fn new(text: &str) -> (made: Self)
        ensures
            made@ == text@,
    {
        TagName(Value::new(text))
    }

    /// The characters held.
    pub fn as_ref(&self) -> (text: &str)
        ensures
            text@ == self@,
    {
        self.0.as_ref()
    }
}

impl Clone for TagName {
    fn clone(&self) -> (copy: Self)
        ensures
            copy == *self,
    {
        TagName(self.0.clone())
    }
}

impl PartialEq for TagName {
    fn eq(&self, other: &Self) -> (same: bool) {
        self.0 == other.0
    }
}

impl vstd::std_specs::cmp::PartialEqSpecImpl for TagName {
    open spec fn obeys_eq_spec() -> bool {
        true
    }

    open spec fn eq_spec(&self, other: &Self) -> bool {
        self@ == other@
    }
}

impl From<Value> for TagName {
    fn from(value: Value) -> (made: Self)
        ensures
            made@ == value@,
    {
        TagName(value)
    }
}

impl vstd::std_specs::convert::FromSpecImpl<Value> for TagName {
    open spec fn obeys_from_spec() -> bool {
        false
    }

    open spec fn from_spec(value: Value) -> Self {
        arbitrary()
    }
}

impl From<&str> for TagName {
    fn from(text: &str) -> (made: Self)
        ensures
            made@ == text@,
    {
        TagName(Value::new(text))
    }
}

impl vstd::std_specs::convert::FromSpecImpl<&str> for TagName {
    open spec fn obeys_from_spec() -> bool {
        false
    }

    open spec fn from_spec(text: &str) -> Self {
        arbitrary()
    }
}

} // verus!
