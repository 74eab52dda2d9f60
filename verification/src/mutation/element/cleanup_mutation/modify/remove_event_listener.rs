use crate::data::{ElementId, EventListenerWrapper};
use crate::mutation::element::builder_mutation::modify::add_event_listener::ElementAddEventListenerMutation;
use crate::mutation::element::cleanup_mutation::modify::ElementCleanupModifyMutation;
use crate::mutation::element::cleanup_mutation::modify::ElementCleanupModifyMutationLog;
use crate::mutation::element::cleanup_mutation::{ElementCleanupMutation, ElementCleanupMutationLog};
use crate::mutation::element::{ElementMutation, ElementMutationLog};
use crate::mutation::error::{MutationError, MutationResult};
use crate::mutation::traits::{Perform, Revert};
use crate::raw_operations;
use crate::raw_operations::backend::DomBackend;
use crate::raw_operations::journal::{lemma_step_one, Issued, Operation};
use crate::raw_operations::LiveDocument;
use vstd::prelude::*;

verus! {

/// Takes a registered callback off a node.
#[derive(Debug)]
pub struct ElementRemoveEventListenerMutation {
    pub listener: EventListenerWrapper,
}

/// The receipt of taking a callback off: the listener that was taken off.
#[derive(Debug)]
pub struct ElementRemoveEventListenerMutationLog {
    pub listener: EventListenerWrapper,
}

pub type Mutation = ElementRemoveEventListenerMutation;

pub type Log = ElementRemoveEventListenerMutationLog;

impl Clone for ElementRemoveEventListenerMutation {
    fn clone(&self) -> (copy: Self)
        ensures
            copy == *self,
    {
        ElementRemoveEventListenerMutation { listener: self.listener.clone() }
    }
}

impl Clone for ElementRemoveEventListenerMutationLog {
    fn clone(&self) -> (copy: Self)
        ensures
            copy == *self,
    {
        ElementRemoveEventListenerMutationLog { listener: self.listener.clone() }
    }
}

impl ElementRemoveEventListenerMutation {
    /// The operation that performing this mutation on `element` issues.
    pub open spec fn operation(&self, element: ElementId) -> Operation {
        Operation::RemoveEventListener {
            element,
            name: self.listener.name@,
            callback: self.listener.closure.hash,
        }
    }
}

impl Perform for ElementRemoveEventListenerMutation {
    type Log = ElementRemoveEventListenerMutationLog;

    /// Issues exactly one operation, the taking off. The receipt holds the
    /// same listener.
    fn perform<B: DomBackend>(&self, doc: &mut LiveDocument<B>, root_element: ElementId) -> (r:
        MutationResult<Self::Log>)
        ensures
            final(doc).issued() == old(doc).issued().push(
                Issued { operation: self.operation(root_element), succeeded: r is Ok },
            ),
            r matches Ok(log) ==> log.listener == self.listener,
            r matches Err(e) ==> e is ElementRemoveEventListener,
    {
        let ghost before = doc.issued();
        let r = raw_operations::remove_event_listener(doc, root_element, self.listener.clone());
        proof {
            lemma_step_one(before, doc.issued().last());
        }
        match r {
            Ok(listener) => Ok(ElementRemoveEventListenerMutationLog { listener }),
            Err(e) => Err(MutationError::ElementRemoveEventListener(e)),
        }
    }

    fn to_mutation(self) -> (wrapped: crate::mutation::Mutation)
        ensures
            wrapped == crate::mutation::Mutation::Element(
                ElementMutation::Cleanup(
                    ElementCleanupMutation::Modify(
                        ElementCleanupModifyMutation::RemoveEventListener(self),
                    ),
                ),
            ),
    {
        crate::mutation::Mutation::Element(
            ElementMutation::Cleanup(
                ElementCleanupMutation::Modify(
                    ElementCleanupModifyMutation::RemoveEventListener(self),
                ),
            ),
        )
    }
}

impl Revert for ElementRemoveEventListenerMutationLog {
    type Mutation = ElementAddEventListenerMutation;

    open spec fn reverted(&self) -> ElementAddEventListenerMutation {
        ElementAddEventListenerMutation { listener: self.listener }
    }

    fn revert(&self) -> (undo: ElementAddEventListenerMutation) {
        ElementAddEventListenerMutation { listener: self.listener.clone() }
    }

    fn to_mutation_log(self) -> (wrapped: crate::mutation::MutationLog)
        ensures
            wrapped == crate::mutation::MutationLog::Element(
                ElementMutationLog::Cleanup(
                    ElementCleanupMutationLog::Modify(
                        ElementCleanupModifyMutationLog::RemoveEventListener(self),
                    ),
                ),
            ),
    {
        crate::mutation::MutationLog::Element(
            ElementMutationLog::Cleanup(
                ElementCleanupMutationLog::Modify(
                    ElementCleanupModifyMutationLog::RemoveEventListener(self),
                ),
            ),
        )
    }
}

} // verus!
