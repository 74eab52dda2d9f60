use super::Value;
use vstd::prelude::*;

verus! {

/// The value of an attribute, a text content or a form value.
#[derive(Debug, Eq, Hash)]
pub struct AttributeValue(Value);

impl View for AttributeValue {
    type V = Seq<char>;

    closed spec fn view(&self) -> Seq<char> {
        self.0@
    }
}

impl AttributeValue {
    /// Copies `text` into a new name or value.
    pub fn new(text: &str) -> (made: Self)
        ensures
            made@ == text@,
    {
        AttributeValue(Value::new(text))
    }

    /// The characters held.
    pub fn as_ref(&self) -> (text: &str)
        ensures
            text@ == self@,
    {
        self.0.as_ref()
    }
}

/// The characters of a value that may be absent.
pub open spec fn text_of(value: Option<AttributeValue>) -> Option<Seq<char>> {
    match value {
        Some(value) => Some(value@),
        None => None,
    }
}

/// A copy of a value that may be absent.
pub fn duplicate(value: &Option<AttributeValue>) -> (copy: Option<AttributeValue>)
    ensures
        copy == *value,
{
    match value {
        Some(value) => Some(value.clone()),
        None => None,
    }
}

/// Whether two values that may be absent hold the same characters, or are both absent.
pub fn same_text(one: &Option<AttributeValue>, other: &Option<AttributeValue>) -> (same: bool)
    ensures
        same == (text_of(*one) == text_of(*other)),
{
    match (one, other) {
        (Some(one), Some(other)) => one == other,
        (None, None) => true,
        _ => false,
    }
}

impl Clone for AttributeValue {
    fn clone(&self) -> (copy: Self)
        ensures
            copy == *self,
    {
        AttributeValue(self.0.clone())
    }
}

impl PartialEq for AttributeValue {
    fn eq(&self, other: &Self) -> (same: bool) {
        self.0 == other.0
    }
}

impl vstd::std_specs::cmp::PartialEqSpecImpl for AttributeValue {
    open spec fn obeys_eq_spec() -> bool {
        true
    }

    open spec fn eq_spec(&self, other: &Self) -> bool {
        self@ == other@
    }
}

impl From<Value> for AttributeValue {
    fn from(value: Value) -> (made: Self)
        ensures
            made@ == value@,
    {
        AttributeValue(value)
    }
}

impl vstd::std_specs::convert::FromSpecImpl<Value> for AttributeValue {
    open spec fn obeys_from_spec() -> bool {
        false
    }

    open spec fn from_spec(value: Value) -> Self {
        arbitrary()
    }
}

impl From<&str> for AttributeValue {
    fn from(text: &str) -> (made: Self)
        ensures
            made@ == text@,
    {
        AttributeValue(Value::new(text))
    }
}

impl vstd::std_specs::convert::FromSpecImpl<&str> for AttributeValue {
    open spec fn obeys_from_spec() -> bool {
        false
    }

    open spec fn from_spec(text: &str) -> Self {
        arbitrary()
    }
}

} // verus!
