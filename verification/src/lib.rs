use data::ElementId;
use document_model::error::DocumentModelError;
use dom_executor::DomExecutor;
use element_builder::ElementWithChildrenRecipe;
use raw_operations::backend::DomBackend;
use raw_operations::journal::{pass, removal_failed, since};
use raw_operations::LiveDocument;
use mutation::error::MutationError;
use raw_operations::error::{DebugOf, RawOperationError};
use vstd::prelude::*;

pub mod data;
pub mod document_model;
pub mod dom_executor;
pub mod element_builder;
pub mod mutation;
pub mod raw_operations;
pub mod utils;
pub mod web;

verus! {

/// Why a pass over the live document failed.
#[derive(Debug)]
pub enum RuntimeError {
    NoWindow,
    NoDocument,
    NoRootElement,
    /// A mutation could not be performed.
    Mutation(MutationError),
    UndoStackEmpty,
    ElementStackNonEmpty,
    DocumentModel(DocumentModelError),
    InvalidElementPopped { current_root: DebugOf, expected_root: DebugOf },
    SlicersWentOutOfSync { message: String },
    /// A child could not be moved to its place among its siblings.
    Reparenting { source: RawOperationError },
    /// A mutation that the new recipe no longer asks for could not be undone.
    UndoingTrailingMutations(MutationError),
    PerformingNewMutations(MutationError),
    /// An earlier pass failed: this executor refuses every further pass.
    RuntimeCrashedOnPreviousRedraw,
    ReinsertingOldChild(RawOperationError),
    RemovingElement(RawOperationError),
}

pub type RuntimeResult<T> = std::result::Result<T, RuntimeError>;

impl RuntimeError {
    /// Whether the error says that the live document removed another node than
    /// the one it was asked to remove.
    pub open spec fn is_mismatch_on_removal(self) -> bool {
        self matches RuntimeError::Mutation(e) && e.is_mismatch_on_removal()
    }
}

/// An executor together with the live document it works on.
pub struct Runtime<B: DomBackend> {
    pub dom_executor: DomExecutor,
    pub document: LiveDocument<B>,
}

impl<B: DomBackend> Runtime<B> {
    /// The node under which the engine keeps its tree.
    pub fn root_element(&self) -> (root: &ElementId)
        requires
            !self.dom_executor.poisoned(),
        ensures
            *root == self.dom_executor.executed->0@.handle(),
    {
        match &self.dom_executor.executed {
            Some(executed) => {
                proof {
                    executed.lemma_view();
                }
                &executed.element.create.log.element_id
            },
            None => {
                // A runtime whose executor is poisoned has no root any more.
                vstd::pervasive::unreached()
            },
        }
    }

    /// The node under which the engine keeps its tree, or `None` once a pass
    /// has failed.
    pub fn try_root_element(&self) -> (root: Option<ElementId>)
        ensures
            self.dom_executor.poisoned() <==> root is None,
            root matches Some(handle) ==> handle == self.dom_executor.executed->0@.handle(),
    {
        match &self.dom_executor.executed {
            Some(executed) => {
                proof {
                    executed.lemma_view();
                }
                Some(executed.element.create.log.element_id)
            },
            None => None,
        }
    }

    /// A runtime that keeps its tree under `root_element`, a node of the live
    /// document `backend`. Nothing is issued.
    pub fn new(backend: B, root_element: ElementId) -> (runtime: Self)
        ensures
            !runtime.dom_executor.poisoned(),
            runtime.document.issued() == Seq::<raw_operations::journal::Issued>::empty(),
            runtime.dom_executor.executed->0@.handle() == root_element,
    {
        let mut document = LiveDocument::new(backend);
        let dom_executor = DomExecutor::new(&mut document, root_element);
        Runtime { dom_executor, document }
    }

    /// One pass over the live document; see `DomExecutor::rebuild`.
    pub fn rebuild(&mut self, recipe: ElementWithChildrenRecipe) -> (r: RuntimeResult<()>)
        ensures
            pass(
                old(self).document.issued(),
                final(self).document.issued(),
                None,
                r is Ok || old(self).dom_executor.poisoned(),
            ),
            old(self).dom_executor.poisoned() <==> r matches Err(
                RuntimeError::RuntimeCrashedOnPreviousRedraw,
            ),
            r is Err <==> final(self).dom_executor.poisoned(),
            r matches Err(e) ==> (e.is_mismatch_on_removal() <==> removal_failed(
                since(old(self).document.issued(), final(self).document.issued()),
            )),
            r is Ok ==> dom_executor::reconciled(
                Some(old(self).dom_executor.executed->0@),
                dom_executor::root_recipe(old(self).dom_executor.executed->0@, recipe@),
                final(self).dom_executor.executed->0@,
            ),
            !old(self).dom_executor.poisoned() && old(self).dom_executor.executed->0@.mirrors(
                dom_executor::root_recipe(old(self).dom_executor.executed->0@, recipe@),
            ) ==> final(self).document.issued() == old(self).document.issued() && r is Ok,
    {
        self.dom_executor.rebuild(&mut self.document, recipe)
    }
}

} // verus!
