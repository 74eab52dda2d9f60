use crate::data::attribute_value::{duplicate, same_text, text_of};
use crate::data::{AttributeValue, ElementId};
use crate::mutation::element::builder_mutation::modify::ElementBuilderModifyMutation;
use crate::mutation::element::builder_mutation::modify::ElementBuilderModifyMutationLog;
use crate::mutation::element::builder_mutation::ElementBuilderMutation;
use crate::mutation::element::builder_mutation::ElementBuilderMutationLog;
use crate::mutation::element::cleanup_mutation::modify::unset_text::ElementUnsetTextMutation;
use crate::mutation::element::{ElementMutation, ElementMutationLog};
use crate::mutation::error::MutationResult;
use crate::mutation::traits::{Perform, Revert};
use crate::raw_operations;
use crate::raw_operations::backend::DomBackend;
use crate::raw_operations::journal::{lemma_step_one, Issued, Operation};
use crate::raw_operations::LiveDocument;
use vstd::prelude::*;

verus! {

/// Sets the text content of a node, or clears it where the value is `None`.
#[derive(Debug, Eq, Hash)]
pub struct ElementSetTextMutation {
    pub value: Option<AttributeValue>,
}

/// The receipt of setting a text: the text that the node had before.
#[derive(Debug)]
pub struct ElementSetTextMutationLog {
    pub previous_value: Option<AttributeValue>,
}

pub type Mutation = ElementSetTextMutation;

pub type Log = ElementSetTextMutationLog;

impl View for ElementSetTextMutation {
    type V = Option<Seq<char>>;

    open spec fn view(&self) -> Option<Seq<char>> {
        text_of(self.value)
    }
}

impl Clone for ElementSetTextMutation {
    fn clone(&self) -> (copy: Self)
        ensures
            copy == *self,
    {
        ElementSetTextMutation { value: duplicate(&self.value) }
    }
}

impl Clone for ElementSetTextMutationLog {
    fn clone(&self) -> (copy: Self)
        ensures
            copy == *self,
    {
        ElementSetTextMutationLog { previous_value: duplicate(&self.previous_value) }
    }
}

impl PartialEq for ElementSetTextMutation {
    fn eq(&self, other: &Self) -> (same: bool) {
        same_text(&self.value, &other.value)
    }
}

impl vstd::std_specs::cmp::PartialEqSpecImpl for ElementSetTextMutation {
    open spec fn obeys_eq_spec() -> bool {
        true
    }

    open spec fn eq_spec(&self, other: &Self) -> bool {
        self@ == other@
    }
}

impl ElementSetTextMutation {
    /// The operation that performing this mutation on `element` issues.
    pub open spec fn operation(&self, element: ElementId) -> Operation {
        Operation::SetText { element, text: text_of(self.value) }
    }
}

impl Perform for ElementSetTextMutation {
    type Log = ElementSetTextMutationLog;

    /// Always succeeds, and issues exactly one operation, the setting of the
    /// text.
    fn perform<B: DomBackend>(&self, doc: &mut LiveDocument<B>, element: ElementId) -> (r: MutationResult<
        Self::Log,
    >)
        ensures
            final(doc).issued() == old(doc).issued().push(
                Issued { operation: self.operation(element), succeeded: true },
            ),
            r is Ok,
    {
        let ghost before = doc.issued();
        let previous_value = raw_operations::set_text(doc, element, duplicate(&self.value));
        proof {
            lemma_step_one(before, doc.issued().last());
        }
        Ok(ElementSetTextMutationLog { previous_value })
    }

    fn to_mutation(self) -> (wrapped: crate::mutation::Mutation)
        ensures
            wrapped == crate::mutation::Mutation::Element(
                ElementMutation::Builder(
                    ElementBuilderMutation::Modify(ElementBuilderModifyMutation::SetText(self)),
                ),
            ),
    {
        crate::mutation::Mutation::Element(
            ElementMutation::Builder(
                ElementBuilderMutation::Modify(ElementBuilderModifyMutation::SetText(self)),
            ),
        )
    }
}

impl Revert for ElementSetTextMutationLog {
    type Mutation = ElementUnsetTextMutation;

    open spec fn reverted(&self) -> ElementUnsetTextMutation {
        ElementUnsetTextMutation { previous_value: self.previous_value }
    }

    fn revert(&self) -> (undo: ElementUnsetTextMutation) {
        ElementUnsetTextMutation { previous_value: duplicate(&self.previous_value) }
    }

    fn to_mutation_log(self) -> (wrapped: crate::mutation::MutationLog)
        ensures
            wrapped == crate::mutation::MutationLog::Element(
                ElementMutationLog::Builder(
                    ElementBuilderMutationLog::Modify(ElementBuilderModifyMutationLog::SetText(self)),
                ),
            ),
    {
        crate::mutation::MutationLog::Element(
            ElementMutationLog::Builder(
                ElementBuilderMutationLog::Modify(ElementBuilderModifyMutationLog::SetText(self)),
            ),
        )
    }
}

} // verus!
