use super::{ElementBuilderModifySnapshotEntry, ElementWithChildrenSnapshot, SnapshotView};
use crate::data::ElementId;
use crate::mutation::traits::{Perform, Revert};
use crate::raw_operations::backend::DomBackend;
use crate::raw_operations::journal::{
    completed, interrupted, lemma_completed_nothing, lemma_completed_then,
    lemma_interrupted_at_once, lemma_interrupted_then, moves_nothing, removal_failed, since,
    Operation,
};
use crate::raw_operations::LiveDocument;
use crate::{RuntimeError, RuntimeResult};
use vstd::prelude::*;

verus! {

/// The undoing of the first `until` entries, in their order.
pub open spec fn modify_reverts(
    entries: Seq<ElementBuilderModifySnapshotEntry>,
    target: ElementId,
    until: int,
) -> Seq<Operation>
    decreases until,
{
    if until <= 0 {
        Seq::empty()
    } else {
        modify_reverts(entries, target, until - 1).push(
            entries[until - 1].log.reverted().operation(target),
        )
    }
}

/// Everything that taking a subtree out of the live document issues: what was
/// written to the node is undone, entry by entry; then its children are taken
/// out, first to last, each in the same way; then the node itself is removed.
pub open spec fn teardown_plan(snapshot: SnapshotView) -> Seq<Operation>
    decreases snapshot, 0int,
{
    (modify_reverts(snapshot.modify, snapshot.handle(), snapshot.modify.len() as int)
        + children_teardown_plan(snapshot.children, snapshot.children.len() as int)).push(
        Operation::RemoveInPlace { element: snapshot.handle() },
    )
}

/// Everything that taking the first `until` children out of the live document
/// issues.
pub open spec fn children_teardown_plan(children: Seq<SnapshotView>, until: int) -> Seq<Operation>
    decreases children, until,
{
    if until <= 0 || until > children.len() {
        Seq::empty()
    } else {
        children_teardown_plan(children, until - 1) + teardown_plan(children[until - 1])
    }
}

/// Taking a subtree out moves nothing among siblings.
pub proof fn lemma_teardown_moves_nothing(snapshot: SnapshotView)
    ensures
        moves_nothing(teardown_plan(snapshot)),
    decreases snapshot, 0int,
{
    lemma_modify_reverts_move_nothing(
        snapshot.modify,
        snapshot.handle(),
        snapshot.modify.len() as int,
    );
    lemma_children_teardown_moves_nothing(snapshot.children, snapshot.children.len() as int);
}

/// Taking children out moves nothing among siblings.
pub proof fn lemma_children_teardown_moves_nothing(children: Seq<SnapshotView>, until: int)
    ensures
        moves_nothing(children_teardown_plan(children, until)),
    decreases children, until,
{
    if 0 < until <= children.len() {
        lemma_children_teardown_moves_nothing(children, until - 1);
        lemma_teardown_moves_nothing(children[until - 1]);
    }
}

/// Undoing modify mutations moves nothing among siblings.
pub proof fn lemma_modify_reverts_move_nothing(
    entries: Seq<ElementBuilderModifySnapshotEntry>,
    target: ElementId,
    until: int,
)
    ensures
        moves_nothing(modify_reverts(entries, target, until)),
    decreases until,
{
    if until > 0 {
        lemma_modify_reverts_move_nothing(entries, target, until - 1);
    }
}

/// Takes the subtree that `snapshot` records out of the live document.
///
/// The journal grows by exactly `teardown_plan`, or by a start of it that ends
/// in the operation that failed. The error is `Mutation`; where the removal of
/// a node failed, it says that another node left the document.
pub fn teardown<B: DomBackend>(doc: &mut LiveDocument<B>, snapshot: &ElementWithChildrenSnapshot) -> (r:
    RuntimeResult<()>)
    ensures
        old(doc).issued().is_prefix_of(final(doc).issued()),
        r is Ok ==> completed(
            teardown_plan(snapshot@),
            since(old(doc).issued(), final(doc).issued()),
        ),
        r matches Err(e) ==> {
            &&& interrupted(teardown_plan(snapshot@), since(old(doc).issued(), final(doc).issued()))
            &&& e is Mutation
            &&& e.is_mismatch_on_removal() <==> removal_failed(
                since(old(doc).issued(), final(doc).issued()),
            )
        },
    decreases snapshot,
{
    let ghost before = doc.issued();
    let ghost view = snapshot@;
    let ghost plan = teardown_plan(view);
    let handle = snapshot.element.create.log.element_id;
    proof {
        snapshot.lemma_view();
    }
    let unfinish = snapshot.element.finish.log.revert();
    let _unfinished = unfinish.perform(doc, handle);
    proof {
        lemma_completed_nothing(before);
    }
    let mut m: usize = 0;
    while m < snapshot.element.modify.len()
        invariant
            m <= snapshot.element.modify@.len(),
            view == snapshot@,
            plan == teardown_plan(view),
            handle == view.handle(),
            before == old(doc).issued(),
            before.is_prefix_of(doc.issued()),
            completed(modify_reverts(view.modify, handle, m as int), since(before, doc.issued())),
        decreases snapshot.element.modify@.len() - m,
    {
        let ghost journal = doc.issued();
        let ghost done = modify_reverts(view.modify, handle, m as int);
        proof {
            snapshot.lemma_view();
        }
        let undo = snapshot.element.modify[m].log.revert();
        let r = undo.perform(doc, handle);
        proof {
            let operation = undo.operation(handle);
            lemma_interrupted_at_once(journal, operation);
            lemma_modify_reverts_grow(view.modify, handle, m as int + 1, view.modify.len() as int);
            assert(modify_reverts(view.modify, handle, m as int + 1) == done.push(operation));
            assert(done.push(operation) =~= done + seq![operation]);
            if r is Ok {
                lemma_completed_then(done, seq![operation], before, journal, doc.issued());
            } else {
                lemma_interrupted_then(done, seq![operation], plan, before, journal, doc.issued());
                assert(!(operation is RemoveInPlace));
            }
        }
        match r {
            Ok(_) => {},
            Err(e) => {
                return Err(RuntimeError::Mutation(e));
            },
        }
        m = m + 1;
    }
    let ghost reverts = modify_reverts(view.modify, handle, view.modify.len() as int);
    let mut c: usize = 0;
    while c < snapshot.children.len()
        invariant
            c <= snapshot.children@.len(),
            view == snapshot@,
            plan == teardown_plan(view),
            handle == view.handle(),
            reverts == modify_reverts(view.modify, handle, view.modify.len() as int),
            before == old(doc).issued(),
            before.is_prefix_of(doc.issued()),
            completed(
                reverts + children_teardown_plan(view.children, c as int),
                since(before, doc.issued()),
            ),
        decreases snapshot.children@.len() - c,
    {
        let ghost journal = doc.issued();
        let ghost done = reverts + children_teardown_plan(view.children, c as int);
        proof {
            snapshot.lemma_view();
        }
        let ghost child = view.children[c as int];
        let r = teardown(doc, &snapshot.children[c]);
        proof {
            lemma_children_teardown_grows(view.children, c as int + 1, view.children.len() as int);
            assert(children_teardown_plan(view.children, c as int + 1) == children_teardown_plan(
                view.children,
                c as int,
            ) + teardown_plan(child));
            assert(done + teardown_plan(child) =~= reverts + children_teardown_plan(
                view.children,
                c as int + 1,
            ));
            if r is Ok {
                lemma_completed_then(done, teardown_plan(child), before, journal, doc.issued());
            } else {
                lemma_interrupted_then(
                    done,
                    teardown_plan(child),
                    plan,
                    before,
                    journal,
                    doc.issued(),
                );
            }
        }
        match r {
            Ok(()) => {},
            Err(e) => {
                return Err(e);
            },
        }
        c = c + 1;
    }
    proof {
        snapshot.lemma_view();
    }
    let ghost journal = doc.issued();
    let ghost done = reverts + children_teardown_plan(view.children, view.children.len() as int);
    let uncreate = snapshot.element.create.log.revert();
    let r = uncreate.perform(doc, handle);
    proof {
        let operation = Operation::RemoveInPlace { element: handle };
        lemma_interrupted_at_once(journal, operation);
        assert(plan =~= done + seq![operation]);
        if r is Ok {
            lemma_completed_then(done, seq![operation], before, journal, doc.issued());
        } else {
            lemma_interrupted_then(done, seq![operation], plan, before, journal, doc.issued());
        }
    }
    match r {
        Ok(_) => Ok(()),
        Err(e) => Err(RuntimeError::Mutation(e)),
    }
}

/// The undoing of the first entries is a start of the undoing of more of them,
/// and of the whole plan.
pub proof fn lemma_modify_reverts_grow(
    entries: Seq<ElementBuilderModifySnapshotEntry>,
    target: ElementId,
    from: int,
    until: int,
)
    requires
        from <= until,
    ensures
        modify_reverts(entries, target, from).is_prefix_of(modify_reverts(entries, target, until)),
    decreases until - from,
{
    if from < until {
        lemma_modify_reverts_grow(entries, target, from, until - 1);
    }
}

/// The taking out of the first children is a start of the taking out of more
/// of them.
pub proof fn lemma_children_teardown_grows(children: Seq<SnapshotView>, from: int, until: int)
    requires
        0 <= from <= until <= children.len(),
    ensures
        children_teardown_plan(children, from).is_prefix_of(
            children_teardown_plan(children, until),
        ),
    decreases until - from,
{
    if from < until {
        lemma_children_teardown_grows(children, from, until - 1);
    }
}

} // verus!
