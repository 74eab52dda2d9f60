use super::Value;
use vstd::prelude::*;

verus! {

/// The name of an attribute of an element.
#[derive(Debug, Eq, Hash)]
pub struct AttributeName(Value);

impl View for AttributeName {
    type V = Seq<char>;

    closed spec fn view(&self) -> Seq<char> {
        self.0@
    }
}

impl AttributeName {
    /// Copies `text` into a new name or value.
    pub fn new(text: &str) -> (made: Self)
        ensures
            made@ == text@,
    {
        AttributeName(Value::new(text))
    }

    /// The characters held.
    pub fn as_ref(&self) -> (text: &str)
        ensures
            text@ == self@,
    {
        self.0.as_ref()
    }
}

impl Clone for AttributeName {
    fn clone(&self) -> (copy: Self)
        ensures
            copy == *self,
    {
        AttributeName(self.0.clone())
    }
}

impl PartialEq for AttributeName {
    fn eq(&self, other: &Self) -> (same: bool) {
        self.0 == other.0
    }
}

impl vstd::std_specs::cmp::PartialEqSpecImpl for AttributeName {
    open spec fn obeys_eq_spec() -> bool {
        true
    }

    open spec fn eq_spec(&self, other: &Self) -> bool {
        self@ == other@
    }
}

impl From<Value> for AttributeName {
    fn from(value: Value) -> (made: Self)
        ensures
            made@ == value@,
    {
        AttributeName(value)
    }
}

impl vstd::std_specs::convert::FromSpecImpl<Value> for AttributeName {
    open spec fn obeys_from_spec() -> bool {
        false
    }

    open spec fn from_spec(value: Value) -> Self {
        arbitrary()
    }
}

impl From<&str> for AttributeName {
    fn from(text: &str) -> (made: Self)
        ensures
            made@ == text@,
    {
        AttributeName(Value::new(text))
    }
}

impl vstd::std_specs::convert::FromSpecImpl<&str> for AttributeName {
    open spec fn obeys_from_spec() -> bool {
        false
    }

    open spec fn from_spec(text: &str) -> Self {
        arbitrary()
    }
}

} // verus!
