use crate::data::Value;
use vstd::prelude::*;

verus! {

/// Why an attribute was refused.
#[derive(Debug)]
pub enum AttributeError {
    InvalidAttributeName { name: Value },
}

pub type AttributeResult<T> = std::result::Result<T, AttributeError>;

} // verus!
