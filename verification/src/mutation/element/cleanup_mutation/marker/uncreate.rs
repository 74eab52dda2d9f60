use crate::data::{ElementId, TagName};
use crate::mutation::element::builder_mutation::marker::create::ElementCreateMutation;
use crate::mutation::element::cleanup_mutation::marker::ElementCleanupMutation as MarkerMutation;
use crate::mutation::element::cleanup_mutation::marker::ElementCleanupMutationLog as MarkerLog;
use crate::mutation::element::cleanup_mutation::{ElementCleanupMutation, ElementCleanupMutationLog};
use crate::mutation::element::{ElementMutation, ElementMutationLog};
use crate::mutation::error::{MutationError, MutationResult};
use crate::mutation::traits::{Perform, Revert};
use crate::raw_operations;
use crate::raw_operations::backend::DomBackend;
use crate::raw_operations::journal::{lemma_step_one, Issued, Operation};
use crate::raw_operations::LiveDocument;
use vstd::prelude::*;

verus! {

/// Takes a node of kind `kind`, with its subtree, out of the live document.
#[derive(Debug)]
pub struct ElementUncreateMutation {
    pub kind: TagName,
}

/// The receipt of a removal: the kind of the node that left.
#[derive(Debug)]
pub struct ElementUncreateMutationLog {
    pub kind: TagName,
}

pub type Mutation = ElementUncreateMutation;

pub type Log = ElementUncreateMutationLog;

impl Clone for ElementUncreateMutation {
    fn clone(&self) -> (copy: Self)
        ensures
            copy == *self,
    {
        ElementUncreateMutation { kind: self.kind.clone() }
    }
}

impl Clone for ElementUncreateMutationLog {
    fn clone(&self) -> (copy: Self)
        ensures
            copy == *self,
    {
        ElementUncreateMutationLog { kind: self.kind.clone() }
    }
}

impl ElementUncreateMutation {
    /// The operation that performing this mutation on `element` issues.
    pub open spec fn operation(&self, element: ElementId) -> Operation {
        Operation::RemoveInPlace { element }
    }
}

impl Perform for ElementUncreateMutation {
    type Log = ElementUncreateMutationLog;

    /// Issues exactly one operation, the removal of `current_root`. Fails,
    /// with the error that says so, exactly when the live document reports
    /// that another node left.
    fn perform<B: DomBackend>(&self, doc: &mut LiveDocument<B>, current_root: ElementId) -> (r:
        MutationResult<Self::Log>)
        ensures
            final(doc).issued() == old(doc).issued().push(
                Issued { operation: self.operation(current_root), succeeded: r is Ok },
            ),
            r matches Ok(log) ==> log.kind == self.kind,
            r matches Err(e) ==> e.is_mismatch_on_removal(),
    {
        let ghost before = doc.issued();
        let r = raw_operations::remove_element_in_place(doc, current_root);
        proof {
            lemma_step_one(before, doc.issued().last());
        }
        match r {
            Ok(_) => Ok(ElementUncreateMutationLog { kind: self.kind.clone() }),
            Err(e) => Err(MutationError::ElementUncreate(e)),
        }
    }

    fn to_mutation(self) -> (wrapped: crate::mutation::Mutation)
        ensures
            wrapped == crate::mutation::Mutation::Element(
                ElementMutation::Cleanup(
                    ElementCleanupMutation::Marker(MarkerMutation::Uncreate(self)),
                ),
            ),
    {
        crate::mutation::Mutation::Element(
            ElementMutation::Cleanup(
                ElementCleanupMutation::Marker(MarkerMutation::Uncreate(self)),
            ),
        )
    }
}

impl Revert for ElementUncreateMutationLog {
    type Mutation = ElementCreateMutation;

    open spec fn reverted(&self) -> ElementCreateMutation {
        ElementCreateMutation { kind: self.kind }
    }

    fn revert(&self) -> (undo: ElementCreateMutation) {
        ElementCreateMutation { kind: self.kind.clone() }
    }

    fn to_mutation_log(self) -> (wrapped: crate::mutation::MutationLog)
        ensures
            wrapped == crate::mutation::MutationLog::Element(
                ElementMutationLog::Cleanup(ElementCleanupMutationLog::Marker(MarkerLog::Uncreate(self))),
            ),
    {
        crate::mutation::MutationLog::Element(
            ElementMutationLog::Cleanup(ElementCleanupMutationLog::Marker(MarkerLog::Uncreate(self))),
        )
    }
}

} // verus!
