use self::uncreate::{ElementUncreateMutation, ElementUncreateMutationLog};
use self::unfinish::{ElementUnfinishMutation, ElementUnfinishMutationLog};
use crate::data::ElementId;
use crate::mutation::element::builder_mutation::marker::ElementBuilderMarkerMutation;
use crate::mutation::element::{ElementMutation, ElementMutationLog};
use crate::mutation::error::MutationResult;
use crate::mutation::traits::{Perform, Revert};
use crate::raw_operations::backend::DomBackend;
use crate::raw_operations::journal::Issued;
use crate::raw_operations::LiveDocument;
use vstd::prelude::*;

pub mod uncreate;
pub mod unfinish;

verus! {

/// The mutations that undo the markers.
#[derive(Debug)]
pub enum ElementCleanupMutation {
    Uncreate(ElementUncreateMutation),
    Unfinish(ElementUnfinishMutation),
}

/// The receipts of undoing the markers.
#[derive(Debug)]
pub enum ElementCleanupMutationLog {
    Uncreate(ElementUncreateMutationLog),
    Unfinish(ElementUnfinishMutationLog),
}

pub type Mutation = ElementCleanupMutation;

pub type Log = ElementCleanupMutationLog;

impl ElementCleanupMutation {
    /// Whether performing this mutation on `state` can take the journal from
    /// `before` to `after` and answer `r`: what the mutation that this value
    /// holds promises of itself.
    pub open spec fn performed(
        &self,
        state: ElementId,
        before: Seq<Issued>,
        after: Seq<Issued>,
        r: MutationResult<ElementCleanupMutationLog>,
    ) -> bool {
        match self {
            ElementCleanupMutation::Uncreate(inner) => after == before.push(
                Issued { operation: inner.operation(state), succeeded: r is Ok },
            ) && match r {
                Ok(ElementCleanupMutationLog::Uncreate(log)) => log.kind == inner.kind,
                Ok(_) => false,
                Err(e) => e.is_mismatch_on_removal(),
            },
            ElementCleanupMutation::Unfinish(_) => after == before && match r {
                Ok(ElementCleanupMutationLog::Unfinish(_)) => true,
                _ => false,
            },
        }
    }
}

impl Perform for ElementCleanupMutation {
    type Log = ElementCleanupMutationLog;

    /// Performs the mutation that this value holds; the receipt is of the same
    /// kind.
    fn perform<B: DomBackend>(&self, doc: &mut LiveDocument<B>, state: ElementId) -> (r: MutationResult<
        Self::Log,
    >)
        ensures
            self.performed(state, old(doc).issued(), final(doc).issued(), r),
    {
        match self {
            ElementCleanupMutation::Uncreate(inner) => {
                let ghost before = doc.issued();
                let r = inner.perform(doc, state);
                proof {
                    crate::raw_operations::journal::lemma_step_one(before, doc.issued().last());
                }
                match r {
                    Ok(log) => Ok(ElementCleanupMutationLog::Uncreate(log)),
                    Err(e) => Err(e),
                }
            },
            ElementCleanupMutation::Unfinish(inner) => match inner.perform(doc, state) {
                Ok(log) => Ok(ElementCleanupMutationLog::Unfinish(log)),
                Err(e) => Err(e),
            },
        }
    }

    fn to_mutation(self) -> (wrapped: crate::mutation::Mutation)
        ensures
            wrapped == crate::mutation::Mutation::Element(
                ElementMutation::Cleanup(
                    crate::mutation::element::cleanup_mutation::ElementCleanupMutation::Marker(self),
                ),
            ),
    {
        crate::mutation::Mutation::Element(
            ElementMutation::Cleanup(
                crate::mutation::element::cleanup_mutation::ElementCleanupMutation::Marker(self),
            ),
        )
    }
}

impl Revert for ElementCleanupMutationLog {
    type Mutation = ElementBuilderMarkerMutation;

    open spec fn reverted(&self) -> ElementBuilderMarkerMutation {
        match self {
            ElementCleanupMutationLog::Uncreate(inner) => ElementBuilderMarkerMutation::Create(
                inner.reverted(),
            ),
            ElementCleanupMutationLog::Unfinish(inner) => ElementBuilderMarkerMutation::Finish(
                inner.reverted(),
            ),
        }
    }

    fn revert(&self) -> (undo: ElementBuilderMarkerMutation) {
        match self {
            ElementCleanupMutationLog::Uncreate(inner) => ElementBuilderMarkerMutation::Create(
                inner.revert(),
            ),
            ElementCleanupMutationLog::Unfinish(inner) => ElementBuilderMarkerMutation::Finish(
                inner.revert(),
            ),
        }
    }

    fn to_mutation_log(self) -> (wrapped: crate::mutation::MutationLog)
        ensures
            wrapped == crate::mutation::MutationLog::Element(
                ElementMutationLog::Cleanup(
                    crate::mutation::element::cleanup_mutation::ElementCleanupMutationLog::Marker(self),
                ),
            ),
    {
        crate::mutation::MutationLog::Element(
            ElementMutationLog::Cleanup(
                crate::mutation::element::cleanup_mutation::ElementCleanupMutationLog::Marker(self),
            ),
        )
    }
}

} // verus!
