use vstd::prelude::*;

verus! {

/// An immutable piece of text: the raw material of tag names, attribute names,
/// attribute values and event names.
///
/// Two values are interchangeable exactly when they hold the same characters,
/// which is what the view exposes.
#[derive(Debug, Eq, Hash)]
pub struct Value {
    text: String,
}

impl View for Value {
    type V = Seq<char>;

    closed spec fn view(&self) -> Seq<char> {
        self.text@
    }
}

impl Value {
    /// Copies `text` into a new value.
    pub fn new(text: &str) -> (value: Self)
        ensures
            value@ == text@,
    {
        Value { text: text.to_owned() }
    }

    /// The characters of this value.
    pub fn as_ref(&self) -> (text: &str)
        ensures
            text@ == self@,
    {
        self.text.as_str()
    }
}

impl Clone for Value {
    fn clone(&self) -> (copy: Self)
        ensures
            copy == *self,
    {
        Value { text: self.text.clone() }
    }
}

impl PartialEq for Value {
    fn eq(&self, other: &Self) -> (same: bool) {
        self.text == other.text
    }
}

impl vstd::std_specs::cmp::PartialEqSpecImpl for Value {
    open spec fn obeys_eq_spec() -> bool {
        true
    }

    open spec fn eq_spec(&self, other: &Self) -> bool {
        self@ == other@
    }
}

impl From<&str> for Value {
    fn from(text: &str) -> (value: Self)
        ensures
            value@ == text@,
    {
        Value::new(text)
    }
}

impl vstd::std_specs::convert::FromSpecImpl<&str> for Value {
    open spec fn obeys_from_spec() -> bool {
        false
    }

    open spec fn from_spec(text: &str) -> Self {
        arbitrary()
    }
}

} // verus!
