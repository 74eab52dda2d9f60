use crate::data::{ElementId, EventListenerWrapper};
use crate::mutation::element::builder_mutation::modify::ElementBuilderModifyMutation;
use crate::mutation::element::builder_mutation::modify::ElementBuilderModifyMutationLog;
use crate::mutation::element::builder_mutation::ElementBuilderMutation;
use crate::mutation::element::builder_mutation::ElementBuilderMutationLog;
use crate::mutation::element::cleanup_mutation::modify::remove_event_listener::ElementRemoveEventListenerMutation;
use crate::mutation::element::{ElementMutation, ElementMutationLog};
use crate::mutation::error::{MutationError, MutationResult};
use crate::mutation::traits::{Perform, Revert};
use crate::raw_operations;
use crate::raw_operations::backend::DomBackend;
use crate::raw_operations::journal::{lemma_step_one, Issued, Operation};
use crate::raw_operations::LiveDocument;
use vstd::prelude::*;

verus! {

/// Registers a callback for an event. The callback is known by the number in
/// the listener: the same number under the same event name is the same
/// registration.
#[derive(Debug, Eq)]
pub struct ElementAddEventListenerMutation {
    pub listener: EventListenerWrapper,
}

/// The receipt of a registration: the listener that was registered.
#[derive(Debug)]
pub struct ElementAddEventListenerMutationLog {
    pub listener: EventListenerWrapper,
}

pub type Mutation = ElementAddEventListenerMutation;

pub type Log = ElementAddEventListenerMutationLog;

impl View for ElementAddEventListenerMutation {
    type V = (Seq<char>, u64);

    open spec fn view(&self) -> (Seq<char>, u64) {
        self.listener@
    }
}

impl Clone for ElementAddEventListenerMutation {
    fn clone(&self) -> (copy: Self)
        ensures
            copy == *self,
    {
        ElementAddEventListenerMutation { listener: self.listener.clone() }
    }
}

impl Clone for ElementAddEventListenerMutationLog {
    fn clone(&self) -> (copy: Self)
        ensures
            copy == *self,
    {
        ElementAddEventListenerMutationLog { listener: self.listener.clone() }
    }
}

impl PartialEq for ElementAddEventListenerMutation {
    fn eq(&self, other: &Self) -> (same: bool) {
        self.listener == other.listener
    }
}

impl vstd::std_specs::cmp::PartialEqSpecImpl for ElementAddEventListenerMutation {
    open spec fn obeys_eq_spec() -> bool {
        true
    }

    open spec fn eq_spec(&self, other: &Self) -> bool {
        self@ == other@
    }
}

impl ElementAddEventListenerMutation {
    /// The operation that performing this mutation on `element` issues.
    pub open spec fn operation(&self, element: ElementId) -> Operation {
        Operation::AddEventListener {
            element,
            name: self.listener.name@,
            callback: self.listener.closure.hash,
        }
    }
}

impl Perform for ElementAddEventListenerMutation {
    type Log = ElementAddEventListenerMutationLog;

    /// Issues exactly one operation, the registration. The receipt holds the
    /// same listener.
    fn perform<B: DomBackend>(&self, doc: &mut LiveDocument<B>, element: ElementId) -> (r: MutationResult<
        Self::Log,
    >)
        ensures
            final(doc).issued() == old(doc).issued().push(
                Issued { operation: self.operation(element), succeeded: r is Ok },
            ),
            r matches Ok(log) ==> log.listener == self.listener,
            r matches Err(e) ==> e is ElementAddEventListener,
    {
        let ghost before = doc.issued();
        let r = raw_operations::add_event_listener(doc, element, self.listener.clone());
        proof {
            lemma_step_one(before, doc.issued().last());
        }
        match r {
            Ok(listener) => Ok(ElementAddEventListenerMutationLog { listener }),
            Err(e) => Err(MutationError::ElementAddEventListener(e)),
        }
    }

    fn to_mutation(self) -> (wrapped: crate::mutation::Mutation)
        ensures
            wrapped == crate::mutation::Mutation::Element(
                ElementMutation::Builder(
                    ElementBuilderMutation::Modify(ElementBuilderModifyMutation::AddEventListener(self)),
                ),
            ),
    {
        crate::mutation::Mutation::Element(
            ElementMutation::Builder(
                ElementBuilderMutation::Modify(ElementBuilderModifyMutation::AddEventListener(self)),
            ),
        )
    }
}

impl Revert for ElementAddEventListenerMutationLog {
    type Mutation = ElementRemoveEventListenerMutation;

    open spec fn reverted(&self) -> ElementRemoveEventListenerMutation {
        ElementRemoveEventListenerMutation { listener: self.listener }
    }

    fn revert(&self) -> (undo: ElementRemoveEventListenerMutation) {
        ElementRemoveEventListenerMutation { listener: self.listener.clone() }
    }

    fn to_mutation_log(self) -> (wrapped: crate::mutation::MutationLog)
        ensures
            wrapped == crate::mutation::MutationLog::Element(
                ElementMutationLog::Builder(
                    ElementBuilderMutationLog::Modify(
                        ElementBuilderModifyMutationLog::AddEventListener(self),
                    ),
                ),
            ),
    {
        crate::mutation::MutationLog::Element(
            ElementMutationLog::Builder(
                ElementBuilderMutationLog::Modify(
                    ElementBuilderModifyMutationLog::AddEventListener(self),
                ),
            ),
        )
    }
}

} // verus!
