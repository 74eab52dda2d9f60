use vstd::prelude::*;

verus! {

/// Why the stack of open elements refused an operation.
#[derive(Debug, Clone, Copy, PartialEq, Eq, Structural)]
pub enum DocumentModelError {
    /// The bottom of the stack, the entry point, was to be popped.
    RootElementPopped,
}

pub type DocumentModelResult<T> = std::result::Result<T, DocumentModelError>;

} // verus!
