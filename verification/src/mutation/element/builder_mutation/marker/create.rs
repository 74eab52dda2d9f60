use crate::data::{ElementId, TagName};
use crate::mutation::element::builder_mutation::marker::ElementBuilderMarkerMutation;
use crate::mutation::element::builder_mutation::marker::ElementBuilderMarkerMutationLog;
use crate::mutation::element::builder_mutation::ElementBuilderMutation;
use crate::mutation::element::builder_mutation::ElementBuilderMutationLog;
use crate::mutation::element::cleanup_mutation::marker::uncreate::ElementUncreateMutation;
use crate::mutation::element::{ElementMutation, ElementMutationLog};
use crate::mutation::error::{MutationError, MutationResult};
use crate::mutation::traits::{Perform, Revert};
use crate::raw_operations;
use crate::raw_operations::backend::DomBackend;
use crate::raw_operations::journal::{lemma_step_one, removal_failed, since, Issued, Operation};
use crate::raw_operations::LiveDocument;
use vstd::prelude::*;

verus! {

/// Makes a node of kind `kind` and attaches it as the last child of the node
/// that the mutation is performed on.
#[derive(Debug, Eq, Hash)]
pub struct ElementCreateMutation {
    pub kind: TagName,
}

/// The receipt of a creation: the kind, and the node that was made.
#[derive(Debug)]
pub struct ElementCreateMutationLog {
    pub kind: TagName,
    pub element_id: ElementId,
}

pub type Mutation = ElementCreateMutation;

pub type Log = ElementCreateMutationLog;

impl View for ElementCreateMutation {
    type V = Seq<char>;

    open spec fn view(&self) -> Seq<char> {
        self.kind@
    }
}

impl Clone for ElementCreateMutation {
    fn clone(&self) -> (copy: Self)
        ensures
            copy == *self,
    {
        ElementCreateMutation { kind: self.kind.clone() }
    }
}

impl Clone for ElementCreateMutationLog {
    fn clone(&self) -> (copy: Self)
        ensures
            copy == *self,
    {
        ElementCreateMutationLog { kind: self.kind.clone(), element_id: self.element_id }
    }
}

impl PartialEq for ElementCreateMutation {
    fn eq(&self, other: &Self) -> (same: bool) {
        self.kind == other.kind
    }
}

impl vstd::std_specs::cmp::PartialEqSpecImpl for ElementCreateMutation {
    open spec fn obeys_eq_spec() -> bool {
        true
    }

    open spec fn eq_spec(&self, other: &Self) -> bool {
        self@ == other@
    }
}

impl ElementCreateMutation {
    /// What a creation under `parent` issues when it succeeds and `created` is
    /// the node that the live document made: the making, then the attaching.
    pub open spec fn operations(&self, parent: ElementId, created: ElementId) -> Seq<Issued> {
        seq![
            Issued { operation: Operation::CreateElement { kind: self.kind@ }, succeeded: true },
            Issued {
                operation: Operation::InsertElement { element: created, to: parent },
                succeeded: true,
            },
        ]
    }
}

impl Perform for ElementCreateMutation {
    type Log = ElementCreateMutationLog;

    /// Makes the node, then attaches it under `parent`. On success the receipt
    /// names the node that was made, and exactly those two operations were
    /// issued. Where the making fails, nothing is attached.
    fn perform<B: DomBackend>(&self, doc: &mut LiveDocument<B>, parent: ElementId) -> (r: MutationResult<
        Self::Log,
    >)
        ensures
            r matches Ok(log) ==> log.kind == self.kind && final(doc).issued() == old(doc).issued()
                + self.operations(parent, log.element_id),
            r matches Err(e) ==> e is ElementCreate && !removal_failed(
                since(old(doc).issued(), final(doc).issued()),
            ),
    {
        let ghost before = doc.issued();
        let kind = self.kind.clone();
        match raw_operations::create_element(doc, kind) {
            Err(e) => {
                proof {
                    lemma_step_one(before, doc.issued().last());
                }
                Err(MutationError::ElementCreate(e))
            },
            Ok(element) => {
                let ghost middle = doc.issued();
                match raw_operations::insert_element(doc, element, parent) {
                    Err(e) => {
                        proof {
                            assert(before.is_prefix_of(doc.issued()));
                            assert(since(before, doc.issued()) =~= seq![
                                middle.last(),
                                doc.issued().last(),
                            ]);
                            assert(!since(before, doc.issued())[1].succeeded);
                        }
                        Err(MutationError::ElementCreate(e))
                    },
                    Ok(inserted) => {
                        proof {
                            assert(before.is_prefix_of(doc.issued()));
                            assert(since(before, doc.issued()) =~= self.operations(
                                parent,
                                inserted,
                            ));
                            assert(doc.issued() =~= before + self.operations(parent, inserted));
                        }
                        Ok(ElementCreateMutationLog { kind: self.kind.clone(), element_id: inserted })
                    },
                }
            },
        }
    }

    fn to_mutation(self) -> (wrapped: crate::mutation::Mutation)
        ensures
            wrapped == crate::mutation::Mutation::Element(
                ElementMutation::Builder(
                    ElementBuilderMutation::Marker(ElementBuilderMarkerMutation::Create(self)),
                ),
            ),
    {
        crate::mutation::Mutation::Element(
            ElementMutation::Builder(
                ElementBuilderMutation::Marker(ElementBuilderMarkerMutation::Create(self)),
            ),
        )
    }
}

impl Revert for ElementCreateMutationLog {
    type Mutation = ElementUncreateMutation;

    open spec fn reverted(&self) -> ElementUncreateMutation {
        ElementUncreateMutation { kind: self.kind }
    }

    fn revert(&self) -> (undo: ElementUncreateMutation) {
        ElementUncreateMutation { kind: self.kind.clone() }
    }

    fn to_mutation_log(self) -> (wrapped: crate::mutation::MutationLog)
        ensures
            wrapped == crate::mutation::MutationLog::Element(
                ElementMutationLog::Builder(
                    ElementBuilderMutationLog::Marker(ElementBuilderMarkerMutationLog::Create(self)),
                ),
            ),
    {
        crate::mutation::MutationLog::Element(
            ElementMutationLog::Builder(
                ElementBuilderMutationLog::Marker(ElementBuilderMarkerMutationLog::Create(self)),
            ),
        )
    }
}

} // verus!
