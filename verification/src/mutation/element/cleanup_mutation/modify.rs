use self::remove_event_listener::ElementRemoveEventListenerMutation;
use self::remove_event_listener::ElementRemoveEventListenerMutationLog;
use self::unset_attribute::{ElementUnsetAttributeMutation, ElementUnsetAttributeMutationLog};
use self::unset_input_value::{ElementUnsetInputValueMutation, ElementUnsetInputValueMutationLog};
use self::unset_text::{ElementUnsetTextMutation, ElementUnsetTextMutationLog};
use crate::data::ElementId;
use crate::mutation::element::builder_mutation::modify::ElementBuilderModifyMutation;
use crate::mutation::element::cleanup_mutation::{ElementCleanupMutation, ElementCleanupMutationLog};
use crate::mutation::element::{ElementMutation, ElementMutationLog};
use crate::mutation::error::MutationResult;
use crate::mutation::traits::{Perform, Revert};
use crate::raw_operations::backend::DomBackend;
use crate::raw_operations::journal::{Issued, Operation};
use crate::raw_operations::LiveDocument;
use vstd::prelude::*;

pub mod remove_event_listener;
pub mod unset_attribute;
pub mod unset_input_value;
pub mod unset_text;

verus! {

/// The mutations that undo the modify mutations.
#[derive(Debug)]
pub enum ElementCleanupModifyMutation {
    UnsetAttribute(ElementUnsetAttributeMutation),
    RemoveEventListener(ElementRemoveEventListenerMutation),
    UnsetText(ElementUnsetTextMutation),
    UnsetInputValue(ElementUnsetInputValueMutation),
}

/// The receipts of undoing the modify mutations.
#[derive(Debug)]
pub enum ElementCleanupModifyMutationLog {
    UnsetAttribute(ElementUnsetAttributeMutationLog),
    RemoveEventListener(ElementRemoveEventListenerMutationLog),
    UnsetText(ElementUnsetTextMutationLog),
    UnsetInputValue(ElementUnsetInputValueMutationLog),
}

pub type Mutation = ElementCleanupModifyMutation;

pub type Log = ElementCleanupModifyMutationLog;

impl ElementCleanupModifyMutation {
    /// The operation that performing this mutation on `element` issues.
    pub open spec fn operation(&self, element: ElementId) -> Operation {
        match self {
            ElementCleanupModifyMutation::UnsetAttribute(inner) => inner.operation(element),
            ElementCleanupModifyMutation::RemoveEventListener(inner) => inner.operation(element),
            ElementCleanupModifyMutation::UnsetText(inner) => inner.operation(element),
            ElementCleanupModifyMutation::UnsetInputValue(inner) => inner.operation(element),
        }
    }
}

impl ElementCleanupModifyMutationLog {
    /// Whether this is the receipt of a mutation of the same kind as
    /// `mutation`.
    pub open spec fn answers(&self, mutation: &ElementCleanupModifyMutation) -> bool {
        match (self, mutation) {
            (
                ElementCleanupModifyMutationLog::UnsetAttribute(log),
                ElementCleanupModifyMutation::UnsetAttribute(mutation),
            ) => log.attribute == mutation.attribute,
            (
                ElementCleanupModifyMutationLog::RemoveEventListener(log),
                ElementCleanupModifyMutation::RemoveEventListener(mutation),
            ) => log.listener == mutation.listener,
            (
                ElementCleanupModifyMutationLog::UnsetText(_),
                ElementCleanupModifyMutation::UnsetText(_),
            ) => true,
            (
                ElementCleanupModifyMutationLog::UnsetInputValue(_),
                ElementCleanupModifyMutation::UnsetInputValue(_),
            ) => true,
            _ => false,
        }
    }
}

impl ElementCleanupModifyMutation {
    /// Whether performing this mutation on `state` can take the journal from
    /// `before` to `after` and answer `r`: exactly one operation is issued, a
    /// receipt is of the same kind and names the same thing, and an error is
    /// not the one of a removal.
    pub open spec fn performed(
        &self,
        state: ElementId,
        before: Seq<Issued>,
        after: Seq<Issued>,
        r: MutationResult<ElementCleanupModifyMutationLog>,
    ) -> bool {
        &&& after == before.push(Issued { operation: self.operation(state), succeeded: r is Ok })
        &&& r matches Ok(log) ==> log.answers(self)
        &&& r matches Err(e) ==> !e.is_mismatch_on_removal()
    }
}

impl Perform for ElementCleanupModifyMutation {
    type Log = ElementCleanupModifyMutationLog;

    /// Performs the mutation that this value holds: exactly one operation is
    /// issued.
    fn perform<B: DomBackend>(&self, doc: &mut LiveDocument<B>, state: ElementId) -> (r: MutationResult<
        Self::Log,
    >)
        ensures
            final(doc).issued() == old(doc).issued().push(
                Issued { operation: self.operation(state), succeeded: r is Ok },
            ),
            r matches Ok(log) ==> log.answers(self),
            r matches Err(e) ==> !e.is_mismatch_on_removal(),
            !(self.operation(state) is RemoveInPlace),
    {
        match self {
            ElementCleanupModifyMutation::UnsetAttribute(inner) => match inner.perform(doc, state) {
                Ok(log) => Ok(ElementCleanupModifyMutationLog::UnsetAttribute(log)),
                Err(e) => Err(e),
            },
            ElementCleanupModifyMutation::RemoveEventListener(inner) => match inner.perform(
                doc,
                state,
            ) {
                Ok(log) => Ok(ElementCleanupModifyMutationLog::RemoveEventListener(log)),
                Err(e) => Err(e),
            },
            ElementCleanupModifyMutation::UnsetText(inner) => match inner.perform(doc, state) {
                Ok(log) => Ok(ElementCleanupModifyMutationLog::UnsetText(log)),
                Err(e) => Err(e),
            },
            ElementCleanupModifyMutation::UnsetInputValue(inner) => match inner.perform(
                doc,
                state,
            ) {
                Ok(log) => Ok(ElementCleanupModifyMutationLog::UnsetInputValue(log)),
                Err(e) => Err(e),
            },
        }
    }

    fn to_mutation(self) -> (wrapped: crate::mutation::Mutation)
        ensures
            wrapped == crate::mutation::Mutation::Element(
                ElementMutation::Cleanup(ElementCleanupMutation::Modify(self)),
            ),
    {
        crate::mutation::Mutation::Element(
            ElementMutation::Cleanup(ElementCleanupMutation::Modify(self)),
        )
    }
}

impl Revert for ElementCleanupModifyMutationLog {
    type Mutation = ElementBuilderModifyMutation;

    open spec fn reverted(&self) -> ElementBuilderModifyMutation {
        match self {
            ElementCleanupModifyMutationLog::UnsetAttribute(inner) => {
                ElementBuilderModifyMutation::SetAttribute(inner.reverted())
            },
            ElementCleanupModifyMutationLog::RemoveEventListener(inner) => {
                ElementBuilderModifyMutation::AddEventListener(inner.reverted())
            },
            ElementCleanupModifyMutationLog::UnsetText(inner) => {
                ElementBuilderModifyMutation::SetText(inner.reverted())
            },
            ElementCleanupModifyMutationLog::UnsetInputValue(inner) => {
                ElementBuilderModifyMutation::SetInputValue(inner.reverted())
            },
        }
    }

    fn revert(&self) -> (undo: ElementBuilderModifyMutation) {
        match self {
            ElementCleanupModifyMutationLog::UnsetAttribute(inner) => {
                ElementBuilderModifyMutation::SetAttribute(inner.revert())
            },
            ElementCleanupModifyMutationLog::RemoveEventListener(inner) => {
                ElementBuilderModifyMutation::AddEventListener(inner.revert())
            },
            ElementCleanupModifyMutationLog::UnsetText(inner) => {
                ElementBuilderModifyMutation::SetText(inner.revert())
            },
            ElementCleanupModifyMutationLog::UnsetInputValue(inner) => {
                ElementBuilderModifyMutation::SetInputValue(inner.revert())
            },
        }
    }

    fn to_mutation_log(self) -> (wrapped: crate::mutation::MutationLog)
        ensures
            wrapped == crate::mutation::MutationLog::Element(
                ElementMutationLog::Cleanup(ElementCleanupMutationLog::Modify(self)),
            ),
    {
        crate::mutation::MutationLog::Element(
            ElementMutationLog::Cleanup(ElementCleanupMutationLog::Modify(self)),
        )
    }
}

} // verus!
