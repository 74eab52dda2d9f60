use crate::document_model::error::DocumentModelError;
use crate::raw_operations::error::RawOperationError;
use vstd::prelude::*;

verus! {

/// Why a mutation could not be performed: the kind of mutation, and what the
/// live document said.
#[derive(Debug)]
pub enum MutationError {
    ElementCreate(RawOperationError),
    ElementUncreate(RawOperationError),
    ElementInsert(RawOperationError),
    ElementUninsert(RawOperationError),
    SetAttribute(RawOperationError),
    UnsetAttribute(RawOperationError),
    ElementAddEventListener(RawOperationError),
    ElementRemoveEventListener(RawOperationError),
    NoElementInBuilder,
    DocumentModel(DocumentModelError),
    SetInputValue(RawOperationError),
}

pub type MutationResult<T> = std::result::Result<T, MutationError>;

impl MutationError {
    /// Whether the error says that the live document removed another node than
    /// the one it was asked to remove.
    pub open spec fn is_mismatch_on_removal(self) -> bool {
        self matches MutationError::ElementUncreate(RawOperationError::ElementMismatch { .. })
    }

    /// Whether the error says that a form value was set on a node that takes
    /// none.
    pub open spec fn is_not_an_input(self) -> bool {
        self matches MutationError::SetInputValue(RawOperationError::NotAnInputElement { .. })
    }
}

} // verus!
