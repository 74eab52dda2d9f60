use self::create::{ElementCreateMutation, ElementCreateMutationLog};
use self::finish::{ElementFinishMutation, ElementFinishMutationLog};
use crate::data::ElementId;
use crate::mutation::element::builder_mutation::ElementBuilderMutation;
use crate::mutation::element::builder_mutation::ElementBuilderMutationLog;
use crate::mutation::element::cleanup_mutation::marker::ElementCleanupMutation;
use crate::mutation::element::{ElementMutation, ElementMutationLog};
use crate::mutation::error::MutationResult;
use crate::mutation::traits::{Perform, Revert};
use crate::raw_operations::backend::DomBackend;
use crate::raw_operations::journal::Issued;
use crate::raw_operations::LiveDocument;
use vstd::prelude::*;

pub mod create;
pub mod finish;

verus! {

/// The mutations that open and close the building of a node.
#[derive(Debug)]
pub enum ElementBuilderMarkerMutation {
    Create(ElementCreateMutation),
    Finish(ElementFinishMutation),
}

/// The receipts of the marker mutations.
#[derive(Debug)]
pub enum ElementBuilderMarkerMutationLog {
    Create(ElementCreateMutationLog),
    Finish(ElementFinishMutationLog),
}

pub type Mutation = ElementBuilderMarkerMutation;

pub type Log = ElementBuilderMarkerMutationLog;

impl Clone for ElementBuilderMarkerMutation {
    fn clone(&self) -> (copy: Self)
        ensures
            copy == *self,
    {
        match self {
            ElementBuilderMarkerMutation::Create(inner) => ElementBuilderMarkerMutation::Create(
                inner.clone(),
            ),
            ElementBuilderMarkerMutation::Finish(inner) => ElementBuilderMarkerMutation::Finish(
                *inner,
            ),
        }
    }
}

impl ElementBuilderMarkerMutationLog {
    /// Whether this is the receipt of a mutation of the same kind as
    /// `mutation`.
    pub open spec fn answers(&self, mutation: &ElementBuilderMarkerMutation) -> bool {
        match (self, mutation) {
            (
                ElementBuilderMarkerMutationLog::Create(log),
                ElementBuilderMarkerMutation::Create(mutation),
            ) => log.kind == mutation.kind,
            (
                ElementBuilderMarkerMutationLog::Finish(_),
                ElementBuilderMarkerMutation::Finish(_),
            ) => true,
            _ => false,
        }
    }
}

impl ElementBuilderMarkerMutation {
    /// Whether performing this mutation on `state` can take the journal from
    /// `before` to `after` and answer `r`: what the mutation that this value
    /// holds promises of itself.
    pub open spec fn performed(
        &self,
        state: ElementId,
        before: Seq<Issued>,
        after: Seq<Issued>,
        r: MutationResult<ElementBuilderMarkerMutationLog>,
    ) -> bool {
        match self {
            ElementBuilderMarkerMutation::Create(inner) => match r {
                Ok(ElementBuilderMarkerMutationLog::Create(log)) => log.kind == inner.kind && after
                    == before + inner.operations(state, log.element_id),
                Ok(_) => false,
                Err(e) => e is ElementCreate,
            },
            ElementBuilderMarkerMutation::Finish(_) => after == before && match r {
                Ok(ElementBuilderMarkerMutationLog::Finish(log)) => log.element_id == state,
                _ => false,
            },
        }
    }
}

impl Perform for ElementBuilderMarkerMutation {
    type Log = ElementBuilderMarkerMutationLog;

    /// Performs the mutation that this value holds; the receipt is of the same
    /// kind.
    fn perform<B: DomBackend>(&self, doc: &mut LiveDocument<B>, state: ElementId) -> (r: MutationResult<
        Self::Log,
    >)
        ensures
            r matches Ok(log) ==> log.answers(self),
            self.performed(state, old(doc).issued(), final(doc).issued(), r),
    {
        match self {
            ElementBuilderMarkerMutation::Create(inner) => match inner.perform(doc, state) {
                Ok(log) => Ok(ElementBuilderMarkerMutationLog::Create(log)),
                Err(e) => Err(e),
            },
            ElementBuilderMarkerMutation::Finish(inner) => match inner.perform(doc, state) {
                Ok(log) => Ok(ElementBuilderMarkerMutationLog::Finish(log)),
                Err(e) => Err(e),
            },
        }
    }

    fn to_mutation(self) -> (wrapped: crate::mutation::Mutation)
        ensures
            wrapped == crate::mutation::Mutation::Element(
                ElementMutation::Builder(ElementBuilderMutation::Marker(self)),
            ),
    {
        crate::mutation::Mutation::Element(
            ElementMutation::Builder(ElementBuilderMutation::Marker(self)),
        )
    }
}

impl Revert for ElementBuilderMarkerMutationLog {
    type Mutation = ElementCleanupMutation;

    open spec fn reverted(&self) -> ElementCleanupMutation {
        match self {
            ElementBuilderMarkerMutationLog::Create(inner) => ElementCleanupMutation::Uncreate(
                inner.reverted(),
            ),
            ElementBuilderMarkerMutationLog::Finish(inner) => ElementCleanupMutation::Unfinish(
                inner.reverted(),
            ),
        }
    }

    fn revert(&self) -> (undo: ElementCleanupMutation) {
        match self {
            ElementBuilderMarkerMutationLog::Create(inner) => ElementCleanupMutation::Uncreate(
                inner.revert(),
            ),
            ElementBuilderMarkerMutationLog::Finish(inner) => ElementCleanupMutation::Unfinish(
                inner.revert(),
            ),
        }
    }

    fn to_mutation_log(self) -> (wrapped: crate::mutation::MutationLog)
        ensures
            wrapped == crate::mutation::MutationLog::Element(
                ElementMutationLog::Builder(ElementBuilderMutationLog::Marker(self)),
            ),
    {
        crate::mutation::MutationLog::Element(
            ElementMutationLog::Builder(ElementBuilderMutationLog::Marker(self)),
        )
    }
}

} // verus!
