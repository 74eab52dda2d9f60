use self::add_event_listener::{ElementAddEventListenerMutation, ElementAddEventListenerMutationLog};
use self::set_attribute::{ElementSetAttributeMutation, ElementSetAttributeMutationLog};
use self::set_input_value::{ElementSetInputValueMutation, ElementSetInputValueMutationLog};
use self::set_text::{ElementSetTextMutation, ElementSetTextMutationLog};
use crate::data::ElementId;
use crate::mutation::element::builder_mutation::ElementBuilderMutation;
use crate::mutation::element::builder_mutation::ElementBuilderMutationLog;
use crate::mutation::element::cleanup_mutation::modify::ElementCleanupModifyMutation;
use crate::mutation::element::{ElementMutation, ElementMutationLog};
use crate::mutation::error::MutationResult;
use crate::mutation::traits::{Perform, Revert};
use crate::raw_operations::backend::DomBackend;
use crate::raw_operations::journal::{Issued, Operation};
use crate::raw_operations::LiveDocument;
use vstd::prelude::*;

pub mod add_event_listener;
pub mod set_attribute;
pub mod set_input_value;
pub mod set_text;

verus! {

/// The mutations that shape a node once it exists.
#[derive(Debug, Eq)]
pub enum ElementBuilderModifyMutation {
    SetAttribute(ElementSetAttributeMutation),
    AddEventListener(ElementAddEventListenerMutation),
    SetText(ElementSetTextMutation),
    SetInputValue(ElementSetInputValueMutation),
}

/// The receipts of the modify mutations.
#[derive(Debug)]
pub enum ElementBuilderModifyMutationLog {
    SetAttribute(ElementSetAttributeMutationLog),
    AddEventListener(ElementAddEventListenerMutationLog),
    SetText(ElementSetTextMutationLog),
    SetInputValue(ElementSetInputValueMutationLog),
}

pub type Mutation = ElementBuilderModifyMutation;

pub type Log = ElementBuilderModifyMutationLog;

/// What a modify mutation is, as plain values: its kind and everything it
/// would write.
pub enum ModifyView {
    SetAttribute { attribute: Seq<char>, value: Option<Seq<char>> },
    AddEventListener { name: Seq<char>, callback: u64 },
    SetText { text: Option<Seq<char>> },
    SetInputValue { input: Seq<char> },
}

/// What a modify mutation writes to, whatever it writes there. A node holds at
/// most one mutation of each identity.
pub enum ModifyIdentity {
    Attribute { attribute: Seq<char> },
    Listener { name: Seq<char>, callback: u64 },
    Text,
    InputValue,
}

impl ModifyView {
    /// What a mutation with this view writes to.
    pub open spec fn identity(self) -> ModifyIdentity {
        match self {
            ModifyView::SetAttribute { attribute, .. } => ModifyIdentity::Attribute { attribute },
            ModifyView::AddEventListener { name, callback } => ModifyIdentity::Listener {
                name,
                callback,
            },
            ModifyView::SetText { .. } => ModifyIdentity::Text,
            ModifyView::SetInputValue { .. } => ModifyIdentity::InputValue,
        }
    }

    /// The operation that performing a mutation with this view on `element`
    /// issues.
    pub open spec fn operation(self, element: ElementId) -> Operation {
        match self {
            ModifyView::SetAttribute { attribute, value } => Operation::SetAttribute {
                element,
                attribute,
                value,
            },
            ModifyView::AddEventListener { name, callback } => Operation::AddEventListener {
                element,
                name,
                callback,
            },
            ModifyView::SetText { text } => Operation::SetText { element, text },
            ModifyView::SetInputValue { input } => Operation::SetInputValue { element, input },
        }
    }
}

impl View for ElementBuilderModifyMutation {
    type V = ModifyView;

    open spec fn view(&self) -> ModifyView {
        match self {
            ElementBuilderModifyMutation::SetAttribute(inner) => ModifyView::SetAttribute {
                attribute: inner@.0,
                value: inner@.1,
            },
            ElementBuilderModifyMutation::AddEventListener(inner) => ModifyView::AddEventListener {
                name: inner@.0,
                callback: inner@.1,
            },
            ElementBuilderModifyMutation::SetText(inner) => ModifyView::SetText { text: inner@ },
            ElementBuilderModifyMutation::SetInputValue(inner) => ModifyView::SetInputValue {
                input: inner@,
            },
        }
    }
}

impl Clone for ElementBuilderModifyMutation {
    fn clone(&self) -> (copy: Self)
        ensures
            copy == *self,
    {
        match self {
            ElementBuilderModifyMutation::SetAttribute(inner) => {
                ElementBuilderModifyMutation::SetAttribute(inner.clone())
            },
            ElementBuilderModifyMutation::AddEventListener(inner) => {
                ElementBuilderModifyMutation::AddEventListener(inner.clone())
            },
            ElementBuilderModifyMutation::SetText(inner) => ElementBuilderModifyMutation::SetText(
                inner.clone(),
            ),
            ElementBuilderModifyMutation::SetInputValue(inner) => {
                ElementBuilderModifyMutation::SetInputValue(inner.clone())
            },
        }
    }
}

impl PartialEq for ElementBuilderModifyMutation {
    fn eq(&self, other: &Self) -> (same: bool) {
        match (self, other) {
            (
                ElementBuilderModifyMutation::SetAttribute(one),
                ElementBuilderModifyMutation::SetAttribute(other),
            ) => one == other,
            (
                ElementBuilderModifyMutation::AddEventListener(one),
                ElementBuilderModifyMutation::AddEventListener(other),
            ) => one == other,
            (
                ElementBuilderModifyMutation::SetText(one),
                ElementBuilderModifyMutation::SetText(other),
            ) => one == other,
            (
                ElementBuilderModifyMutation::SetInputValue(one),
                ElementBuilderModifyMutation::SetInputValue(other),
            ) => one == other,
            _ => false,
        }
    }
}

impl vstd::std_specs::cmp::PartialEqSpecImpl for ElementBuilderModifyMutation {
    open spec fn obeys_eq_spec() -> bool {
        true
    }

    open spec fn eq_spec(&self, other: &Self) -> bool {
        self@ == other@
    }
}

impl ElementBuilderModifyMutation {
    /// What this mutation writes to.
    pub open spec fn identity(&self) -> ModifyIdentity {
        self@.identity()
    }

    /// The operation that performing this mutation on `element` issues.
    pub open spec fn operation(&self, element: ElementId) -> Operation {
        self@.operation(element)
    }

    /// Whether both mutations write to the same thing, whatever they write.
    pub fn same_identity(&self, other: &Self) -> (same: bool)
        ensures
            same == (self.identity() == other.identity()),
    {
        match (self, other) {
            (
                ElementBuilderModifyMutation::SetAttribute(one),
                ElementBuilderModifyMutation::SetAttribute(other),
            ) => one.attribute == other.attribute,
            (
                ElementBuilderModifyMutation::AddEventListener(one),
                ElementBuilderModifyMutation::AddEventListener(other),
            ) => one.listener == other.listener,
            (
                ElementBuilderModifyMutation::SetText(_),
                ElementBuilderModifyMutation::SetText(_),
            ) => true,
            (
                ElementBuilderModifyMutation::SetInputValue(_),
                ElementBuilderModifyMutation::SetInputValue(_),
            ) => true,
            _ => false,
        }
    }
}

impl ElementBuilderModifyMutationLog {
    /// Whether this is the receipt of a mutation that writes to the same thing
    /// as `mutation`.
    pub open spec fn answers(&self, mutation: &ElementBuilderModifyMutation) -> bool {
        match (self, mutation) {
            (
                ElementBuilderModifyMutationLog::SetAttribute(log),
                ElementBuilderModifyMutation::SetAttribute(mutation),
            ) => log.attribute@ == mutation.attribute@,
            (
                ElementBuilderModifyMutationLog::AddEventListener(log),
                ElementBuilderModifyMutation::AddEventListener(mutation),
            ) => log.listener@ == mutation.listener@,
            (
                ElementBuilderModifyMutationLog::SetText(_),
                ElementBuilderModifyMutation::SetText(_),
            ) => true,
            (
                ElementBuilderModifyMutationLog::SetInputValue(_),
                ElementBuilderModifyMutation::SetInputValue(_),
            ) => true,
            _ => false,
        }
    }
}

impl Clone for ElementBuilderModifyMutationLog {
    fn clone(&self) -> (copy: Self)
        ensures
            copy == *self,
    {
        match self {
            ElementBuilderModifyMutationLog::SetAttribute(inner) => {
                ElementBuilderModifyMutationLog::SetAttribute(inner.clone())
            },
            ElementBuilderModifyMutationLog::AddEventListener(inner) => {
                ElementBuilderModifyMutationLog::AddEventListener(inner.clone())
            },
            ElementBuilderModifyMutationLog::SetText(inner) => {
                ElementBuilderModifyMutationLog::SetText(inner.clone())
            },
            ElementBuilderModifyMutationLog::SetInputValue(inner) => {
                ElementBuilderModifyMutationLog::SetInputValue(inner.clone())
            },
        }
    }
}

impl ElementBuilderModifyMutation {
    /// Whether performing this mutation on `state` can take the journal from
    /// `before` to `after` and answer `r`: exactly one operation is issued, a
    /// receipt is of the same kind and names the same thing, and an error is
    /// not the one of a removal.
    pub open spec fn performed(
        &self,
        state: ElementId,
        before: Seq<Issued>,
        after: Seq<Issued>,
        r: MutationResult<ElementBuilderModifyMutationLog>,
    ) -> bool {
        &&& after == before.push(Issued { operation: self.operation(state), succeeded: r is Ok })
        &&& r matches Ok(log) ==> log.answers(self)
        &&& r matches Err(e) ==> !e.is_mismatch_on_removal()
    }
}

impl Perform for ElementBuilderModifyMutation {
    type Log = ElementBuilderModifyMutationLog;

    /// Performs the mutation that this value holds: exactly one operation is
    /// issued, and the receipt is of the same kind and names the same thing.
    fn perform<B: DomBackend>(&self, doc: &mut LiveDocument<B>, state: ElementId) -> (r: MutationResult<
        Self::Log,
    >)
        ensures
            final(doc).issued() == old(doc).issued().push(
                Issued { operation: self.operation(state), succeeded: r is Ok },
            ),
            r matches Ok(log) ==> log.answers(self),
            r matches Err(e) ==> !e.is_mismatch_on_removal(),
    {
        match self {
            ElementBuilderModifyMutation::SetAttribute(inner) => match inner.perform(doc, state) {
                Ok(log) => Ok(ElementBuilderModifyMutationLog::SetAttribute(log)),
                Err(e) => Err(e),
            },
            ElementBuilderModifyMutation::AddEventListener(inner) => match inner.perform(
                doc,
                state,
            ) {
                Ok(log) => Ok(ElementBuilderModifyMutationLog::AddEventListener(log)),
                Err(e) => Err(e),
            },
            ElementBuilderModifyMutation::SetText(inner) => match inner.perform(doc, state) {
                Ok(log) => Ok(ElementBuilderModifyMutationLog::SetText(log)),
                Err(e) => Err(e),
            },
            ElementBuilderModifyMutation::SetInputValue(inner) => match inner.perform(doc, state) {
                Ok(log) => Ok(ElementBuilderModifyMutationLog::SetInputValue(log)),
                Err(e) => Err(e),
            },
        }
    }

    fn to_mutation(self) -> (wrapped: crate::mutation::Mutation)
        ensures
            wrapped == crate::mutation::Mutation::Element(
                ElementMutation::Builder(ElementBuilderMutation::Modify(self)),
            ),
    {
        crate::mutation::Mutation::Element(
            ElementMutation::Builder(ElementBuilderMutation::Modify(self)),
        )
    }
}

impl Revert for ElementBuilderModifyMutationLog {
    type Mutation = ElementCleanupModifyMutation;

    open spec fn reverted(&self) -> ElementCleanupModifyMutation {
        match self {
            ElementBuilderModifyMutationLog::SetAttribute(inner) => {
                ElementCleanupModifyMutation::UnsetAttribute(inner.reverted())
            },
            ElementBuilderModifyMutationLog::AddEventListener(inner) => {
                ElementCleanupModifyMutation::RemoveEventListener(inner.reverted())
            },
            ElementBuilderModifyMutationLog::SetText(inner) => {
                ElementCleanupModifyMutation::UnsetText(inner.reverted())
            },
            ElementBuilderModifyMutationLog::SetInputValue(inner) => {
                ElementCleanupModifyMutation::UnsetInputValue(inner.reverted())
            },
        }
    }

    fn revert(&self) -> (undo: ElementCleanupModifyMutation) {
        match self {
            ElementBuilderModifyMutationLog::SetAttribute(inner) => {
                ElementCleanupModifyMutation::UnsetAttribute(inner.revert())
            },
            ElementBuilderModifyMutationLog::AddEventListener(inner) => {
                ElementCleanupModifyMutation::RemoveEventListener(inner.revert())
            },
            ElementBuilderModifyMutationLog::SetText(inner) => {
                ElementCleanupModifyMutation::UnsetText(inner.revert())
            },
            ElementBuilderModifyMutationLog::SetInputValue(inner) => {
                ElementCleanupModifyMutation::UnsetInputValue(inner.revert())
            },
        }
    }

    fn to_mutation_log(self) -> (wrapped: crate::mutation::MutationLog)
        ensures
            wrapped == crate::mutation::MutationLog::Element(
                ElementMutationLog::Builder(ElementBuilderMutationLog::Modify(self)),
            ),
    {
        crate::mutation::MutationLog::Element(
            ElementMutationLog::Builder(ElementBuilderMutationLog::Modify(self)),
        )
    }
}

} // verus!
