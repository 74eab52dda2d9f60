use crate::data::ElementId;
use crate::mutation::element::builder_mutation::ElementBuilderMutation;
use crate::mutation::element::{ElementMutation, ElementMutationLog};
use crate::mutation::error::MutationResult;
use crate::mutation::traits::{Perform, Revert};
use crate::raw_operations::backend::DomBackend;
use crate::raw_operations::journal::{lemma_step_one, Issued};
use crate::raw_operations::LiveDocument;
use vstd::prelude::*;

pub mod marker;
pub mod modify;

verus! {

/// Every mutation that undoes: the undoing of the markers and of the modify
/// mutations.
#[derive(Debug)]
pub enum ElementCleanupMutation {
    Marker(marker::ElementCleanupMutation),
    Modify(modify::ElementCleanupModifyMutation),
}

/// The receipts of the cleanup mutations.
#[derive(Debug)]
pub enum ElementCleanupMutationLog {
    Marker(marker::ElementCleanupMutationLog),
    Modify(modify::ElementCleanupModifyMutationLog),
}

pub type Mutation = ElementCleanupMutation;

pub type Log = ElementCleanupMutationLog;

impl ElementCleanupMutation {
    /// Whether performing this mutation on `state` can take the journal from
    /// `before` to `after` and answer `r`: what the mutation that this value
    /// holds promises of itself.
    pub open spec fn performed(
        &self,
        state: ElementId,
        before: Seq<Issued>,
        after: Seq<Issued>,
        r: MutationResult<ElementCleanupMutationLog>,
    ) -> bool {
        match self {
            ElementCleanupMutation::Marker(inner) => match r {
                Ok(ElementCleanupMutationLog::Marker(log)) => inner.performed(
                    state,
                    before,
                    after,
                    Ok(log),
                ),
                Ok(_) => false,
                Err(e) => inner.performed(state, before, after, Err(e)),
            },
            ElementCleanupMutation::Modify(inner) => match r {
                Ok(ElementCleanupMutationLog::Modify(log)) => inner.performed(
                    state,
                    before,
                    after,
                    Ok(log),
                ),
                Ok(_) => false,
                Err(e) => inner.performed(state, before, after, Err(e)),
            },
        }
    }
}

impl Perform for ElementCleanupMutation {
    type Log = ElementCleanupMutationLog;

    /// Performs the mutation that this value holds; the receipt is of the same
    /// kind.
    fn perform<B: DomBackend>(&self, doc: &mut LiveDocument<B>, state: ElementId) -> (r: MutationResult<
        Self::Log,
    >)
        ensures
            self.performed(state, old(doc).issued(), final(doc).issued(), r),
    {
        match self {
            ElementCleanupMutation::Marker(inner) => match inner.perform(doc, state) {
                Ok(log) => Ok(ElementCleanupMutationLog::Marker(log)),
                Err(e) => Err(e),
            },
            ElementCleanupMutation::Modify(inner) => {
                let ghost before = doc.issued();
                let r = inner.perform(doc, state);
                proof {
                    lemma_step_one(before, doc.issued().last());
                }
                match r {
                    Ok(log) => Ok(ElementCleanupMutationLog::Modify(log)),
                    Err(e) => Err(e),
                }
            },
        }
    }

    fn to_mutation(self) -> (wrapped: crate::mutation::Mutation)
        ensures
            wrapped == crate::mutation::Mutation::Element(ElementMutation::Cleanup(self)),
    {
        crate::mutation::Mutation::Element(ElementMutation::Cleanup(self))
    }
}

impl Revert for ElementCleanupMutationLog {
    type Mutation = ElementBuilderMutation;

    open spec fn reverted(&self) -> ElementBuilderMutation {
        match self {
            ElementCleanupMutationLog::Marker(inner) => ElementBuilderMutation::Marker(
                inner.reverted(),
            ),
            ElementCleanupMutationLog::Modify(inner) => ElementBuilderMutation::Modify(
                inner.reverted(),
            ),
        }
    }

    fn revert(&self) -> (undo: ElementBuilderMutation) {
        match self {
            ElementCleanupMutationLog::Marker(inner) => ElementBuilderMutation::Marker(
                inner.revert(),
            ),
            ElementCleanupMutationLog::Modify(inner) => ElementBuilderMutation::Modify(
                inner.revert(),
            ),
        }
    }

    fn to_mutation_log(self) -> (wrapped: crate::mutation::MutationLog)
        ensures
            wrapped == crate::mutation::MutationLog::Element(ElementMutationLog::Cleanup(self)),
    {
        crate::mutation::MutationLog::Element(ElementMutationLog::Cleanup(self))
    }
}

} // verus!
