use super::matching::{
    lemma_partner_is, lemma_partners_unique, pair_up, partner, partners, place, views_of,
};
use super::slots::into_slots;
use super::{entry_views, ElementBuilderModifySnapshotEntry, SnapshotEntryV2};
use crate::data::ElementId;
use crate::element_builder::modify_views;
use crate::mutation::element::builder_mutation::modify::{
    ElementBuilderModifyMutation, ModifyIdentity, ModifyView,
};
use crate::mutation::traits::{Perform, Revert};
use crate::raw_operations::backend::DomBackend;
use crate::raw_operations::journal::{
    completed, interrupted, removal_failed, since, Issued, Operation,
};
use crate::raw_operations::LiveDocument;
use crate::{RuntimeError, RuntimeResult};
use vstd::prelude::*;

verus! {

/// Whether one of the wanted mutations writes to `identity`.
pub open spec fn wants(wanted: Seq<ModifyView>, identity: ModifyIdentity) -> bool {
    exists|i: int| 0 <= i < wanted.len() && (#[trigger] wanted[i]).identity() == identity
}

/// The undoing of the stale entries among the first `until` old entries, in
/// their order. An entry is stale when none of the wanted mutations writes to
/// what it wrote to.
pub open spec fn stale_reverts(
    previous: Seq<ElementBuilderModifySnapshotEntry>,
    wanted: Seq<ModifyView>,
    target: ElementId,
    until: int,
) -> Seq<Operation>
    decreases until,
{
    if until <= 0 {
        Seq::empty()
    } else {
        let rest = stale_reverts(previous, wanted, target, until - 1);
        let entry = previous[until - 1];
        if wants(wanted, entry.mutation.identity()) {
            rest
        } else {
            rest.push(entry.log.reverted().operation(target))
        }
    }
}

/// The performing of the fresh mutations among the first `until` wanted ones,
/// in their order. A wanted mutation is fresh when no old entry with the same
/// mutation is left for it.
pub open spec fn fresh_performs(
    previous: Seq<ModifyView>,
    wanted: Seq<ModifyView>,
    target: ElementId,
    until: int,
) -> Seq<Operation>
    decreases until,
{
    if until <= 0 {
        Seq::empty()
    } else {
        let rest = fresh_performs(previous, wanted, target, until - 1);
        if partner(previous, wanted, until - 1) is Some {
            rest
        } else {
            rest.push(wanted[until - 1].operation(target))
        }
    }
}

/// Everything that bringing the modify mutations of a node up to date issues:
/// first the stale entries are undone, then the fresh mutations are performed.
/// Mutations that are wanted again as they are issue nothing.
pub open spec fn sync_plan(
    previous: Seq<ElementBuilderModifySnapshotEntry>,
    wanted: Seq<ModifyView>,
    target: ElementId,
) -> Seq<Operation> {
    stale_reverts(previous, wanted, target, previous.len() as int) + fresh_performs(
        entry_views(previous),
        wanted,
        target,
        wanted.len() as int,
    )
}

/// Whether `entries` is what bringing `previous` up to date with `wanted`
/// leaves: one entry for each wanted mutation, in the same order; the old entry
/// itself where one with the same mutation was left for it, and otherwise the
/// wanted mutation with a receipt of its own kind.
pub open spec fn synced(
    previous: Seq<ElementBuilderModifySnapshotEntry>,
    wanted: Seq<ElementBuilderModifyMutation>,
    entries: Seq<ElementBuilderModifySnapshotEntry>,
) -> bool {
    &&& entries.len() == wanted.len()
    &&& forall|i: int|
        0 <= i < wanted.len() ==> match partner(entry_views(previous), modify_views(wanted), i) {
            Some(o) => #[trigger] entries[i] == previous[o],
            None => entries[i].mutation == wanted[i] && entries[i].log.answers(&wanted[i]),
        }
}

/// The partner of each wanted mutation decides what became of it: the old entry
/// itself, or an entry of its own with a receipt of its own kind.
pub open spec fn modify_synced(
    previous: Seq<ElementBuilderModifySnapshotEntry>,
    wanted: Seq<ModifyView>,
    entries: Seq<ElementBuilderModifySnapshotEntry>,
) -> bool {
    &&& entries.len() == wanted.len()
    &&& forall|i: int|
        0 <= i < wanted.len() ==> match partner(entry_views(previous), wanted, i) {
            Some(o) => #[trigger] entries[i] == previous[o],
            None => entries[i].mutation@ == wanted[i] && entries[i].log.answers(
                &entries[i].mutation,
            ),
        }
}

/// What `sync_modify` leaves records exactly the wanted mutations.
pub proof fn lemma_synced_mirrors(
    previous: Seq<ElementBuilderModifySnapshotEntry>,
    wanted: Seq<ElementBuilderModifyMutation>,
    entries: Seq<ElementBuilderModifySnapshotEntry>,
)
    requires
        synced(previous, wanted, entries),
    ensures
        modify_synced(previous, modify_views(wanted), entries),
        entry_views(entries) =~= modify_views(wanted),
{
    let old_views = entry_views(previous);
    let new_views = modify_views(wanted);
    assert forall|i: int| 0 <= i < wanted.len() implies entry_views(entries)[i] == new_views[i] by {
        if partner(old_views, new_views, i) is Some {
            let o = partner(old_views, new_views, i)->0;
            assert(partners(old_views, new_views, o, i));
            assert(entries[i] == previous[o]);
        } else {
            assert(entries[i].mutation == wanted[i]);
        }
    }
}

/// Where the node already carries exactly the wanted mutations, each entry is
/// kept where it is, and nothing is issued.
pub proof fn lemma_sync_of_same(
    previous: Seq<ElementBuilderModifySnapshotEntry>,
    wanted: Seq<ModifyView>,
    target: ElementId,
)
    requires
        entry_views(previous) == wanted,
    ensures
        sync_plan(previous, wanted, target) =~= Seq::<Operation>::empty(),
        forall|i: int|
            0 <= i < wanted.len() ==> #[trigger] partner(entry_views(previous), wanted, i) == Some(i),
{
    assert forall|i: int| 0 <= i < wanted.len() implies #[trigger] partner(
        entry_views(previous),
        wanted,
        i,
    ) == Some(i) by {
        super::matching::lemma_same_keys_pair_in_place(entry_views(previous), wanted, i);
    }
    lemma_nothing_stale(previous, wanted, target, previous.len() as int);
    lemma_nothing_fresh(entry_views(previous), wanted, target, wanted.len() as int);
}

/// Where every old entry is wanted again, none is undone.
proof fn lemma_nothing_stale(
    previous: Seq<ElementBuilderModifySnapshotEntry>,
    wanted: Seq<ModifyView>,
    target: ElementId,
    until: int,
)
    requires
        entry_views(previous) == wanted,
        until <= previous.len(),
    ensures
        stale_reverts(previous, wanted, target, until) =~= Seq::<Operation>::empty(),
    decreases until,
{
    if until > 0 {
        lemma_nothing_stale(previous, wanted, target, until - 1);
        assert(wanted[until - 1].identity() == previous[until - 1].mutation.identity());
    }
}

/// Where every wanted mutation has a partner, none is performed.
proof fn lemma_nothing_fresh(
    previous: Seq<ModifyView>,
    wanted: Seq<ModifyView>,
    target: ElementId,
    until: int,
)
    requires
        until <= wanted.len(),
        forall|i: int| 0 <= i < wanted.len() ==> #[trigger] partner(previous, wanted, i) is Some,
    ensures
        fresh_performs(previous, wanted, target, until) =~= Seq::<Operation>::empty(),
    decreases until,
{
    if until > 0 {
        lemma_nothing_fresh(previous, wanted, target, until - 1);
        assert(partner(previous, wanted, until - 1) is Some);
    }
}

/// Bringing modify mutations up to date moves nothing among siblings.
pub proof fn lemma_sync_moves_nothing(
    previous: Seq<ElementBuilderModifySnapshotEntry>,
    wanted: Seq<ModifyView>,
    target: ElementId,
)
    ensures
        crate::raw_operations::journal::moves_nothing(sync_plan(previous, wanted, target)),
{
    lemma_stale_moves_nothing(previous, wanted, target, previous.len() as int);
    lemma_fresh_moves_nothing(entry_views(previous), wanted, target, wanted.len() as int);
}

proof fn lemma_stale_moves_nothing(
    previous: Seq<ElementBuilderModifySnapshotEntry>,
    wanted: Seq<ModifyView>,
    target: ElementId,
    until: int,
)
    ensures
        crate::raw_operations::journal::moves_nothing(
            stale_reverts(previous, wanted, target, until),
        ),
    decreases until,
{
    if until > 0 {
        lemma_stale_moves_nothing(previous, wanted, target, until - 1);
    }
}

proof fn lemma_fresh_moves_nothing(
    previous: Seq<ModifyView>,
    wanted: Seq<ModifyView>,
    target: ElementId,
    until: int,
)
    ensures
        crate::raw_operations::journal::moves_nothing(
            fresh_performs(previous, wanted, target, until),
        ),
    decreases until,
{
    if until > 0 {
        lemma_fresh_moves_nothing(previous, wanted, target, until - 1);
    }
}

/// The operations of `plan` that write the attribute `attribute` of `element`,
/// in their order.
pub open spec fn attribute_writes(plan: Seq<Operation>, element: ElementId, attribute: Seq<char>) -> Seq<
    Operation,
>
    decreases plan.len(),
{
    if plan.len() == 0 {
        Seq::empty()
    } else {
        let rest = attribute_writes(plan.drop_last(), element, attribute);
        if plan.last().writes_attribute(element, attribute) {
            rest.push(plan.last())
        } else {
            rest
        }
    }
}

/// The writes of two plans in a row are the writes of the first, then those of
/// the second.
pub proof fn lemma_attribute_writes_of_both(
    first: Seq<Operation>,
    second: Seq<Operation>,
    element: ElementId,
    attribute: Seq<char>,
)
    ensures
        attribute_writes(first + second, element, attribute) == attribute_writes(
            first,
            element,
            attribute,
        ) + attribute_writes(second, element, attribute),
    decreases second.len(),
{
    if second.len() == 0 {
        assert(first + second =~= first);
        assert(attribute_writes(first, element, attribute) + Seq::<Operation>::empty()
            =~= attribute_writes(first, element, attribute));
    } else {
        lemma_attribute_writes_of_both(first, second.drop_last(), element, attribute);
        assert((first + second).drop_last() =~= first + second.drop_last());
        assert((first + second).last() == second.last());
        let rest = attribute_writes(first, element, attribute) + attribute_writes(
            second.drop_last(),
            element,
            attribute,
        );
        if second.last().writes_attribute(element, attribute) {
            assert(rest.push(second.last()) =~= attribute_writes(first, element, attribute)
                + attribute_writes(second.drop_last(), element, attribute).push(second.last()));
        }
    }
}

/// Whether no two entries write to the same thing, and each receipt is the
/// receipt of its mutation.
pub open spec fn entries_sound(previous: Seq<ElementBuilderModifySnapshotEntry>) -> bool {
    &&& forall|a: int, b: int|
        0 <= a < b < previous.len() ==> previous[a].mutation.identity()
            != previous[b].mutation.identity()
    &&& forall|a: int|
        0 <= a < previous.len() ==> (#[trigger] previous[a]).log.answers(&previous[a].mutation)
}

/// The operation that puts an attribute back to what the receipt says it was.
pub open spec fn attribute_revert(
    entry: ElementBuilderModifySnapshotEntry,
    target: ElementId,
) -> Operation {
    entry.log.reverted().operation(target)
}

/// Diffing is minimal: an attribute that the node carries and the recipe no
/// longer asks for is written exactly once while the node is brought up to
/// date, by the operation that puts it back to what it was before it was set
/// (which takes the attribute away, where there was none). Nothing else
/// touches that attribute.
pub proof fn lemma_dropped_attribute_is_unset_once(
    previous: Seq<ElementBuilderModifySnapshotEntry>,
    wanted: Seq<ModifyView>,
    target: ElementId,
    at: int,
    attribute: Seq<char>,
)
    requires
        entries_sound(previous),
        0 <= at < previous.len(),
        previous[at].mutation.identity() == (ModifyIdentity::Attribute { attribute }),
        !wants(wanted, ModifyIdentity::Attribute { attribute }),
    ensures
        attribute_writes(sync_plan(previous, wanted, target), target, attribute) == seq![
            attribute_revert(previous[at], target),
        ],
        attribute_revert(previous[at], target) matches Operation::SetAttribute {
            element,
            attribute: written,
            ..
        } && element == target && written == attribute,
{
    let stale = stale_reverts(previous, wanted, target, previous.len() as int);
    let fresh = fresh_performs(entry_views(previous), wanted, target, wanted.len() as int);
    lemma_attribute_writes_of_both(stale, fresh, target, attribute);
    lemma_fresh_never_writes(entry_views(previous), wanted, target, attribute, wanted.len() as int);
    lemma_stale_writes_once(previous, wanted, target, at, attribute, previous.len() as int);
    assert(previous[at].log.answers(&previous[at].mutation));
    assert(attribute_writes(stale, target, attribute) + Seq::<Operation>::empty()
        =~= attribute_writes(stale, target, attribute));
}

/// No fresh mutation writes an attribute that the recipe does not ask for.
proof fn lemma_fresh_never_writes(
    previous: Seq<ModifyView>,
    wanted: Seq<ModifyView>,
    target: ElementId,
    attribute: Seq<char>,
    until: int,
)
    requires
        until <= wanted.len(),
        !wants(wanted, ModifyIdentity::Attribute { attribute }),
    ensures
        attribute_writes(fresh_performs(previous, wanted, target, until), target, attribute)
            == Seq::<Operation>::empty(),
    decreases until,
{
    if until > 0 {
        lemma_fresh_never_writes(previous, wanted, target, attribute, until - 1);
        let rest = fresh_performs(previous, wanted, target, until - 1);
        if partner(previous, wanted, until - 1) is None {
            let operation = wanted[until - 1].operation(target);
            assert(rest.push(operation).drop_last() =~= rest);
            if operation.writes_attribute(target, attribute) {
                assert(wanted[until - 1].identity() == (ModifyIdentity::Attribute { attribute }));
            }
        }
    }
}

/// Among the undoing of the first `until` entries, the attribute is written by
/// the undoing of the entry at `at`, once that entry is among them, and by
/// nothing else.
proof fn lemma_stale_writes_once(
    previous: Seq<ElementBuilderModifySnapshotEntry>,
    wanted: Seq<ModifyView>,
    target: ElementId,
    at: int,
    attribute: Seq<char>,
    until: int,
)
    requires
        entries_sound(previous),
        0 <= at < previous.len(),
        until <= previous.len(),
        previous[at].mutation.identity() == (ModifyIdentity::Attribute { attribute }),
        !wants(wanted, ModifyIdentity::Attribute { attribute }),
    ensures
        attribute_writes(stale_reverts(previous, wanted, target, until), target, attribute) == if at
            < until {
            seq![attribute_revert(previous[at], target)]
        } else {
            Seq::<Operation>::empty()
        },
    decreases until,
{
    if until > 0 {
        lemma_stale_writes_once(previous, wanted, target, at, attribute, until - 1);
        let rest = stale_reverts(previous, wanted, target, until - 1);
        let entry = previous[until - 1];
        assert(entry.log.answers(&entry.mutation));
        if !wants(wanted, entry.mutation.identity()) {
            let operation = entry.log.reverted().operation(target);
            assert(rest.push(operation).drop_last() =~= rest);
            if until - 1 == at {
                assert(operation.writes_attribute(target, attribute));
                assert(Seq::<Operation>::empty().push(operation) =~= seq![operation]);
            } else {
                if operation.writes_attribute(target, attribute) {
                    assert(entry.mutation.identity() == (ModifyIdentity::Attribute { attribute }));
                    if until - 1 < at {
                        assert(previous[until - 1].mutation.identity() != previous[at].mutation.identity());
                    } else {
                        assert(previous[at].mutation.identity() != previous[until - 1].mutation.identity());
                    }
                }
            }
        }
    }
}

/// Whether one of `wanted` writes to the same thing as `mutation`.
fn is_wanted(wanted: &Vec<ElementBuilderModifyMutation>, mutation: &ElementBuilderModifyMutation) -> (found:
    bool)
    ensures
        found == wants(modify_views(wanted@), mutation.identity()),
{
    let mut i: usize = 0;
    while i < wanted.len()
        invariant
            i <= wanted@.len(),
            forall|j: int|
                0 <= j < i ==> (#[trigger] modify_views(wanted@)[j]).identity()
                    != mutation.identity(),
        decreases wanted@.len() - i,
    {
        if wanted[i].same_identity(mutation) {
            assert(modify_views(wanted@)[i as int].identity() == mutation.identity());
            return true;
        }
        i = i + 1;
    }
    false
}

/// Undoes the stale entries of `previous`, first to last, and stops at the
/// first that cannot be undone.
fn revert_stale<B: DomBackend>(
    doc: &mut LiveDocument<B>,
    target: ElementId,
    previous: &Vec<ElementBuilderModifySnapshotEntry>,
    wanted: &Vec<ElementBuilderModifyMutation>,
) -> (r: RuntimeResult<()>)
    ensures
        old(doc).issued().is_prefix_of(final(doc).issued()),
        r is Ok ==> completed(
            stale_reverts(previous@, modify_views(wanted@), target, previous@.len() as int),
            since(old(doc).issued(), final(doc).issued()),
        ),
        r matches Err(e) ==> e is UndoingTrailingMutations && interrupted(
            stale_reverts(previous@, modify_views(wanted@), target, previous@.len() as int),
            since(old(doc).issued(), final(doc).issued()),
        ) && !removal_failed(since(old(doc).issued(), final(doc).issued())),
{
    let ghost before = doc.issued();
    let ghost views = modify_views(wanted@);
    let mut o: usize = 0;
    while o < previous.len()
        invariant
            o <= previous@.len(),
            views == modify_views(wanted@),
            before == old(doc).issued(),
            before.is_prefix_of(doc.issued()),
            completed(stale_reverts(previous@, views, target, o as int), since(before, doc.issued())),
        decreases previous@.len() - o,
    {
        let ghost done = stale_reverts(previous@, views, target, o as int);
        let ghost trace = since(before, doc.issued());
        let ghost journal = doc.issued();
        if !is_wanted(wanted, &previous[o].mutation) {
            let undo = previous[o].log.revert();
            let r = undo.perform(doc, target);
            proof {
                let next = stale_reverts(previous@, views, target, o as int + 1);
                assert(next == done.push(undo.operation(target)));
                assert(since(before, doc.issued()) =~= trace.push(doc.issued().last()));
                lemma_stale_reverts_grow(previous@, views, target, o as int + 1, previous@.len() as int);
            }
            match r {
                Ok(_) => {},
                Err(e) => {
                    proof {
                        let all = stale_reverts(previous@, views, target, previous@.len() as int);
                        let now = since(before, doc.issued());
                        assert forall|i: int| 0 <= i < now.len() implies #[trigger] now[i] == (Issued {
                            operation: all[i],
                            succeeded: i < now.len() - 1,
                        }) by {
                            assert(all[i] == done.push(undo.operation(target))[i]);
                            if i < trace.len() {
                                assert(now[i] == trace[i]);
                            }
                        }
                    }
                    return Err(RuntimeError::UndoingTrailingMutations(e));
                },
            }
        }
        o = o + 1;
    }
    Ok(())
}

/// The plan for the first entries is a start of the plan for more of them.
pub proof fn lemma_stale_reverts_grow(
    previous: Seq<ElementBuilderModifySnapshotEntry>,
    wanted: Seq<ModifyView>,
    target: ElementId,
    from: int,
    until: int,
)
    requires
        from <= until,
    ensures
        stale_reverts(previous, wanted, target, from).is_prefix_of(
            stale_reverts(previous, wanted, target, until),
        ),
    decreases until - from,
{
    if from < until {
        lemma_stale_reverts_grow(previous, wanted, target, from, until - 1);
    }
}

/// The plan for the first wanted mutations is a start of the plan for more of
/// them.
pub proof fn lemma_fresh_performs_grow(
    previous: Seq<ModifyView>,
    wanted: Seq<ModifyView>,
    target: ElementId,
    from: int,
    until: int,
)
    requires
        from <= until,
    ensures
        fresh_performs(previous, wanted, target, from).is_prefix_of(
            fresh_performs(previous, wanted, target, until),
        ),
    decreases until - from,
{
    if from < until {
        lemma_fresh_performs_grow(previous, wanted, target, from, until - 1);
    }
}

/// Brings the modify mutations of the node `target` up to date.
///
/// `previous` is what the node carries, `wanted` what it is to carry. A wanted
/// mutation that the node already carries is kept with its receipt and issues
/// nothing. An old entry that no wanted mutation supersedes is undone. Every
/// other wanted mutation is performed. The journal grows by exactly
/// `sync_plan`, or by a start of it that ends in the operation that failed.
///
/// The error is `UndoingTrailingMutations` where an undoing failed, and
/// `Mutation` where a performing failed.
pub fn sync_modify<B: DomBackend>(
    doc: &mut LiveDocument<B>,
    target: ElementId,
    previous: Vec<ElementBuilderModifySnapshotEntry>,
    wanted: &Vec<ElementBuilderModifyMutation>,
) -> (r: RuntimeResult<Vec<ElementBuilderModifySnapshotEntry>>)
    ensures
        old(doc).issued().is_prefix_of(final(doc).issued()),
        match r {
            Ok(entries) => {
                &&& completed(
                    sync_plan(previous@, modify_views(wanted@), target),
                    since(old(doc).issued(), final(doc).issued()),
                )
                &&& synced(previous@, wanted@, entries@)
            },
            Err(e) => {
                &&& interrupted(
                    sync_plan(previous@, modify_views(wanted@), target),
                    since(old(doc).issued(), final(doc).issued()),
                )
                &&& e is UndoingTrailingMutations || e is Mutation
                &&& !e.is_mismatch_on_removal()
                &&& !removal_failed(since(old(doc).issued(), final(doc).issued()))
                &&& e is UndoingTrailingMutations <==> since(
                    old(doc).issued(),
                    final(doc).issued(),
                ).len() <= stale_reverts(
                    previous@,
                    modify_views(wanted@),
                    target,
                    previous@.len() as int,
                ).len()
            },
        },
{
    let ghost before = doc.issued();
    let ghost old_views = entry_views(previous@);
    let ghost new_views = modify_views(wanted@);
    let ghost stale = stale_reverts(previous@, new_views, target, previous@.len() as int);
    let ghost plan = sync_plan(previous@, new_views, target);
    let mut old_keys: Vec<&ElementBuilderModifyMutation> = Vec::new();
    let mut o: usize = 0;
    while o < previous.len()
        invariant
            o <= previous@.len(),
            old_keys@.len() == o,
            forall|j: int| 0 <= j < o ==> #[trigger] old_keys@[j] == &previous@[j].mutation,
        decreases previous@.len() - o,
    {
        old_keys.push(&previous[o].mutation);
        o = o + 1;
    }
    let mut new_keys: Vec<&ElementBuilderModifyMutation> = Vec::new();
    let mut n: usize = 0;
    while n < wanted.len()
        invariant
            n <= wanted@.len(),
            new_keys@.len() == n,
            forall|j: int| 0 <= j < n ==> #[trigger] new_keys@[j] == &wanted@[j],
        decreases wanted@.len() - n,
    {
        new_keys.push(&wanted[n]);
        n = n + 1;
    }
    assert(views_of(old_keys@) =~= old_views);
    assert(views_of(new_keys@) =~= new_views);
    let pairs = pair_up(&old_keys, &new_keys);
    match revert_stale(doc, target, &previous, wanted) {
        Err(e) => {
            proof {
                let trace = since(before, doc.issued());
                assert(stale.is_prefix_of(plan));
                assert forall|i: int| 0 <= i < trace.len() implies #[trigger] trace[i] == (Issued {
                    operation: plan[i],
                    succeeded: i < trace.len() - 1,
                }) by {
                    assert(plan[i] == stale[i]);
                }
            }
            return Err(e);
        },
        Ok(()) => {},
    }
    let ghost reverted = doc.issued();
    let mut slots = into_slots(previous);
    let mut entries: Vec<ElementBuilderModifySnapshotEntry> = Vec::new();
    let mut i: usize = 0;
    while i < wanted.len()
        invariant
            i <= wanted@.len(),
            entries@.len() == i,
            pairs@.len() == wanted@.len(),
            slots@.len() == previous@.len(),
            old_views == entry_views(previous@),
            new_views == modify_views(wanted@),
            stale == stale_reverts(previous@, new_views, target, previous@.len() as int),
            forall|n: int|
                0 <= n < wanted@.len() ==> place(#[trigger] pairs@[n]) == partner(
                    old_views,
                    new_views,
                    n,
                ),
            forall|o: int|
                0 <= o < slots@.len() ==> #[trigger] slots@[o] == if exists|n: int|
                    0 <= n < i && partners(old_views, new_views, o, n) {
                    None
                } else {
                    Some(previous@[o])
                },
            before == old(doc).issued(),
            plan == sync_plan(previous@, new_views, target),
            before.is_prefix_of(reverted),
            reverted.is_prefix_of(doc.issued()),
            completed(stale, since(before, reverted)),
            completed(
                fresh_performs(old_views, new_views, target, i as int),
                since(reverted, doc.issued()),
            ),
            synced(previous@, wanted@.take(i as int), entries@),
        decreases wanted@.len() - i,
    {
        let ghost done = fresh_performs(old_views, new_views, target, i as int);
        let ghost trace = since(reverted, doc.issued());
        let ghost kept = entries@;
        proof {
            assert(modify_views(wanted@.take(i as int)) =~= new_views.take(i as int));
        }
        let mut taken: Option<ElementBuilderModifySnapshotEntry> = None;
        match pairs[i] {
            Some(o) => {
                proof {
                    assert(place(pairs@[i as int]) == Some(o as int));
                    assert(partners(old_views, new_views, o as int, i as int));
                    if exists|n: int| 0 <= n < i && partners(old_views, new_views, o as int, n) {
                        let n = choose|n: int|
                            0 <= n < i && partners(old_views, new_views, o as int, n);
                        lemma_partners_unique(old_views, new_views, o as int, n, o as int, i as int);
                    }
                }
                taken = slots[o].take();
            },
            None => {},
        }
        let entry = match taken {
            Some(entry) => entry,
            None => {
                let r = wanted[i].perform(doc, target);
                match r {
                    Ok(log) => SnapshotEntryV2 { mutation: wanted[i].clone(), log },
                    Err(e) => {
                        proof {
                            lemma_fresh_performs_grow(
                                old_views,
                                new_views,
                                target,
                                i as int + 1,
                                wanted@.len() as int,
                            );
                            assert(place(pairs@[i as int]) is None);
                            lemma_failed_perform(
                                before,
                                reverted,
                                doc.issued(),
                                stale,
                                done,
                                new_views[i as int].operation(target),
                                plan,
                            );
                        }
                        return Err(RuntimeError::Mutation(e));
                    },
                }
            },
        };
        entries.push(entry);
        proof {
            let next = fresh_performs(old_views, new_views, target, i as int + 1);
            if pairs@[i as int] is None {
                assert(next == done.push(new_views[i as int].operation(target)));
                assert(since(reverted, doc.issued()) =~= trace.push(doc.issued().last()));
            } else {
                assert(next == done);
            }
            let so_far = wanted@.take(i as int + 1);
            assert(modify_views(so_far) =~= new_views.take(i as int + 1));
            assert forall|n: int| 0 <= n < so_far.len() implies match partner(
                old_views,
                modify_views(so_far),
                n,
            ) {
                Some(o) => #[trigger] entries@[n] == previous@[o],
                None => entries@[n].mutation == so_far[n] && entries@[n].log.answers(&so_far[n]),
            } by {
                lemma_partner_of_start(old_views, new_views, i as int + 1, n);
                if n < i {
                    lemma_partner_of_start(old_views, new_views, i as int, n);
                    assert(entries@[n] == kept[n]);
                }
            }
            assert forall|o: int| 0 <= o < slots@.len() implies #[trigger] slots@[o] == if exists|
                n: int,
            |
                0 <= n < i + 1 && partners(old_views, new_views, o, n) {
                None
            } else {
                Some(previous@[o])
            } by {
                if partners(old_views, new_views, o, i as int) {
                    lemma_partner_is(old_views, new_views, o, i as int);
                }
            }
        }
        i = i + 1;
    }
    proof {
        assert(wanted@.take(i as int) =~= wanted@);
        lemma_completed_both(before, reverted, doc.issued(), stale, plan);
    }
    Ok(entries)
}

/// The partner of a wanted mutation does not depend on the wanted mutations
/// that follow it.
pub proof fn lemma_partner_of_start<K>(old_keys: Seq<K>, new_keys: Seq<K>, until: int, n: int)
    requires
        0 <= n < until <= new_keys.len(),
    ensures
        partner(old_keys, new_keys.take(until), n) == partner(old_keys, new_keys, n),
{
    let start = new_keys.take(until);
    lemma_rank_of_start(new_keys, until, n);
    assert forall|o: int| partners(old_keys, start, o, n) <==> partners(old_keys, new_keys, o, n) by {}
    if exists|o: int| partners(old_keys, new_keys, o, n) {
        let o = choose|o: int| partners(old_keys, new_keys, o, n);
        assert(partners(old_keys, start, o, n));
        lemma_partner_is(old_keys, start, o, n);
        lemma_partner_is(old_keys, new_keys, o, n);
    } else {
        assert(!exists|o: int| partners(old_keys, start, o, n));
    }
}

/// The rank of a key does not depend on the keys that follow it.
pub proof fn lemma_rank_of_start<K>(keys: Seq<K>, until: int, n: int)
    requires
        0 <= n < until <= keys.len(),
    ensures
        super::matching::rank(keys.take(until), n) == super::matching::rank(keys, n),
{
    lemma_occurrences_of_start(keys, keys[n], until, n);
}

/// Counting among the first keys does not depend on the keys that follow them.
pub proof fn lemma_occurrences_of_start<K>(keys: Seq<K>, key: K, until: int, n: int)
    requires
        0 <= n <= until <= keys.len(),
    ensures
        super::matching::occurrences(keys.take(until), key, n) == super::matching::occurrences(
            keys,
            key,
            n,
        ),
    decreases n,
{
    if n > 0 {
        lemma_occurrences_of_start(keys, key, until, n - 1);
    }
}

/// Where the first part of a plan was completed, and of its second part all
/// that stands before one operation, and that operation failed, the plan was
/// interrupted, after its first part.
proof fn lemma_failed_perform(
    before: Seq<Issued>,
    middle: Seq<Issued>,
    after: Seq<Issued>,
    first: Seq<Operation>,
    done: Seq<Operation>,
    failed: Operation,
    plan: Seq<Operation>,
)
    requires
        before.is_prefix_of(middle),
        middle.is_prefix_of(after),
        completed(first, since(before, middle)),
        after.len() > 0,
        middle.is_prefix_of(after.drop_last()),
        completed(done, since(middle, after.drop_last())),
        after.last() == (Issued { operation: failed, succeeded: false }),
        (first + done.push(failed)).is_prefix_of(plan),
    ensures
        before.is_prefix_of(after),
        interrupted(plan, since(before, after)),
        since(before, after).len() > first.len(),
{
    let trace = since(before, after);
    let head = since(before, middle);
    let tail = since(middle, after.drop_last());
    assert(trace =~= (head + tail).push(after.last()));
    assert forall|i: int| 0 <= i < trace.len() implies #[trigger] trace[i] == (Issued {
        operation: plan[i],
        succeeded: i < trace.len() - 1,
    }) by {
        assert(plan[i] == (first + done.push(failed))[i]);
        if i < head.len() {
            assert(trace[i] == head[i]);
        } else if i < head.len() + tail.len() {
            assert(trace[i] == tail[i - head.len()]);
        }
    }
}

/// Where both parts of a plan were completed, one after the other, the plan
/// was completed.
proof fn lemma_completed_both(
    before: Seq<Issued>,
    middle: Seq<Issued>,
    after: Seq<Issued>,
    first: Seq<Operation>,
    plan: Seq<Operation>,
)
    requires
        before.is_prefix_of(middle),
        middle.is_prefix_of(after),
        completed(first, since(before, middle)),
        first.is_prefix_of(plan),
        completed(plan.skip(first.len() as int), since(middle, after)),
    ensures
        before.is_prefix_of(after),
        completed(plan, since(before, after)),
{
    let trace = since(before, after);
    let head = since(before, middle);
    let tail = since(middle, after);
    assert(trace =~= head + tail);
    assert forall|i: int| 0 <= i < trace.len() implies #[trigger] trace[i] == (Issued {
        operation: plan[i],
        succeeded: true,
    }) by {
        if i < head.len() {
            assert(trace[i] == head[i]);
            assert(plan[i] == first[i]);
        } else {
            assert(trace[i] == tail[i - head.len()]);
            assert(plan.skip(first.len() as int)[i - head.len()] == plan[i]);
        }
    }
}

} // verus!
