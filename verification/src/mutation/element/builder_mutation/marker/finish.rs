use crate::data::ElementId;
use crate::mutation::element::builder_mutation::marker::ElementBuilderMarkerMutation;
use crate::mutation::element::builder_mutation::marker::ElementBuilderMarkerMutationLog;
use crate::mutation::element::builder_mutation::ElementBuilderMutation;
use crate::mutation::element::builder_mutation::ElementBuilderMutationLog;
use crate::mutation::element::cleanup_mutation::marker::unfinish::ElementUnfinishMutation;
use crate::mutation::element::{ElementMutation, ElementMutationLog};
use crate::mutation::error::MutationResult;
use crate::mutation::traits::{Perform, Revert};
use crate::raw_operations::backend::DomBackend;
use crate::raw_operations::journal::lemma_step_nothing;
use crate::raw_operations::LiveDocument;
use vstd::prelude::*;

verus! {

/// Marks a node as fully built: its children are all in place.
#[derive(Debug, Clone, Copy, PartialEq, Eq, Hash, Structural)]
pub struct ElementFinishMutation {}

/// The receipt of a finish: the node that was finished.
#[derive(Debug, Clone, Copy, PartialEq, Eq, Structural)]
pub struct ElementFinishMutationLog {
    pub element_id: ElementId,
}

pub type Mutation = ElementFinishMutation;

pub type Log = ElementFinishMutationLog;

impl Perform for ElementFinishMutation {
    type Log = ElementFinishMutationLog;

    /// Always succeeds, and issues nothing: the mark lives in the snapshot
    /// only.
    fn perform<B: DomBackend>(&self, doc: &mut LiveDocument<B>, element_id: ElementId) -> (r:
        MutationResult<Self::Log>)
        ensures
            final(doc).issued() == old(doc).issued(),
            r matches Ok(log) && log.element_id == element_id,
    {
        proof {
            lemma_step_nothing(doc.issued());
        }
        Ok(ElementFinishMutationLog { element_id })
    }

    fn to_mutation(self) -> (wrapped: crate::mutation::Mutation)
        ensures
            wrapped == crate::mutation::Mutation::Element(
                ElementMutation::Builder(
                    ElementBuilderMutation::Marker(ElementBuilderMarkerMutation::Finish(self)),
                ),
            ),
    {
        crate::mutation::Mutation::Element(
            ElementMutation::Builder(
                ElementBuilderMutation::Marker(ElementBuilderMarkerMutation::Finish(self)),
            ),
        )
    }
}

impl Revert for ElementFinishMutationLog {
    type Mutation = ElementUnfinishMutation;

    open spec fn reverted(&self) -> ElementUnfinishMutation {
        ElementUnfinishMutation { element_id: self.element_id }
    }

    fn revert(&self) -> (undo: ElementUnfinishMutation) {
        ElementUnfinishMutation { element_id: self.element_id }
    }

    fn to_mutation_log(self) -> (wrapped: crate::mutation::MutationLog)
        ensures
            wrapped == crate::mutation::MutationLog::Element(
                ElementMutationLog::Builder(
                    ElementBuilderMutationLog::Marker(ElementBuilderMarkerMutationLog::Finish(self)),
                ),
            ),
    {
        crate::mutation::MutationLog::Element(
            ElementMutationLog::Builder(
                ElementBuilderMutationLog::Marker(ElementBuilderMarkerMutationLog::Finish(self)),
            ),
        )
    }
}

} // verus!
