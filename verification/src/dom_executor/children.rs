use super::matching::{
    is_taken, lemma_partners_unique, pair_up, partner, partners, place, views_of,
};
use super::reorder_children::{in_order, is_target, targets};
use super::teardown::{lemma_teardown_moves_nothing, teardown, teardown_plan};
use crate::raw_operations::journal::{
    completed, lemma_completed_nothing, lemma_completed_then, Operation,
};
use super::{
    child_keys, lemma_snapshot_views, recipe_keys, snapshot_views, ElementWithChildrenSnapshot,
    SnapshotView,
};
use crate::data::TagName;
use crate::element_builder::{lemma_recipe_views, recipe_views, ElementWithChildrenRecipe};
use crate::raw_operations::backend::DomBackend;
use crate::raw_operations::journal::{
    lemma_plan_is_step, lemma_removal_failed_since, lemma_step_nothing, lemma_step_then,
    removal_failed, since, step,
};
use crate::raw_operations::LiveDocument;
use crate::RuntimeResult;
use vstd::prelude::*;

verus! {

/// What tells the children of one node apart: the key that the recipe gave the
/// child, and the kind of the child.
#[derive(Debug)]
pub struct ChildKey<'a> {
    pub key: Option<u64>,
    pub kind: &'a TagName,
}

impl<'a> View for ChildKey<'a> {
    type V = (Option<u64>, Seq<char>);

    open spec fn view(&self) -> (Option<u64>, Seq<char>) {
        (self.key, self.kind@)
    }
}

impl<'a> PartialEq for ChildKey<'a> {
    fn eq(&self, other: &Self) -> (same: bool) {
        let same_key = match (self.key, other.key) {
            (Some(one), Some(other)) => one == other,
            (None, None) => true,
            _ => false,
        };
        same_key && *self.kind == *other.kind
    }
}

impl<'a> vstd::std_specs::cmp::PartialEqSpecImpl for ChildKey<'a> {
    open spec fn obeys_eq_spec() -> bool {
        true
    }

    open spec fn eq_spec(&self, other: &Self) -> bool {
        self@ == other@
    }
}

/// For each child of the recipe, in order, the place of the old child that
/// belongs to it: the first old child with the same key and kind that no
/// earlier child of the recipe has taken.
pub fn pair_children(
    old_children: &Vec<ElementWithChildrenSnapshot>,
    recipes: &Vec<ElementWithChildrenRecipe>,
) -> (pairs: Vec<Option<usize>>)
    ensures
        pairs@.len() == recipes@.len(),
        forall|n: int|
            0 <= n < recipes@.len() ==> place(#[trigger] pairs@[n]) == partner(
                child_keys(snapshot_views(old_children@)),
                recipe_keys(recipe_views(recipes@)),
                n,
            ),
{
    proof {
        lemma_snapshot_views(old_children@);
        lemma_recipe_views(recipes@);
    }
    let mut old_store: Vec<ChildKey> = Vec::new();
    let mut o: usize = 0;
    while o < old_children.len()
        invariant
            o <= old_children@.len(),
            old_store@.len() == o,
            forall|j: int|
                0 <= j < o ==> (#[trigger] old_store@[j])@ == snapshot_views(
                    old_children@,
                )[j].child_key(),
            forall|j: int|
                0 <= j < old_children@.len() ==> #[trigger] snapshot_views(old_children@)[j]
                    == old_children@[j]@,
        decreases old_children@.len() - o,
    {
        proof {
            old_children@[o as int].lemma_view();
        }
        old_store.push(
            ChildKey {
                key: old_children[o].element.key,
                kind: &old_children[o].element.create.mutation.kind,
            },
        );
        o = o + 1;
    }
    let mut new_store: Vec<ChildKey> = Vec::new();
    let mut n: usize = 0;
    while n < recipes.len()
        invariant
            n <= recipes@.len(),
            new_store@.len() == n,
            forall|j: int|
                0 <= j < n ==> (#[trigger] new_store@[j])@ == recipe_views(recipes@)[j].child_key(),
            forall|j: int|
                0 <= j < recipes@.len() ==> #[trigger] recipe_views(recipes@)[j] == recipes@[j]@,
        decreases recipes@.len() - n,
    {
        proof {
            recipes@[n as int].lemma_view();
        }
        new_store.push(
            ChildKey { key: recipes[n].element.key, kind: &recipes[n].element.create.kind },
        );
        n = n + 1;
    }
    let mut old_keys: Vec<&ChildKey> = Vec::new();
    let mut o: usize = 0;
    while o < old_store.len()
        invariant
            o <= old_store@.len(),
            old_keys@.len() == o,
            forall|j: int| 0 <= j < o ==> #[trigger] old_keys@[j] == &old_store@[j],
        decreases old_store@.len() - o,
    {
        old_keys.push(&old_store[o]);
        o = o + 1;
    }
    let mut new_keys: Vec<&ChildKey> = Vec::new();
    let mut n: usize = 0;
    while n < new_store.len()
        invariant
            n <= new_store@.len(),
            new_keys@.len() == n,
            forall|j: int| 0 <= j < n ==> #[trigger] new_keys@[j] == &new_store@[j],
        decreases new_store@.len() - n,
    {
        new_keys.push(&new_store[n]);
        n = n + 1;
    }
    assert(views_of(old_keys@) =~= child_keys(snapshot_views(old_children@)));
    assert(views_of(new_keys@) =~= recipe_keys(recipe_views(recipes@)));
    pair_up(&old_keys, &new_keys)
}

/// Whether the slots hold what the reconciling of the first `until` children
/// of the recipe left: an old child that one of them took is replaced by what
/// was made of it, and the others are as they were.
pub open spec fn slots_sound(
    slots: Seq<Option<ElementWithChildrenSnapshot>>,
    claimed_by: Seq<Option<usize>>,
    previous: Seq<ElementWithChildrenSnapshot>,
    made: Seq<SnapshotView>,
    old_keys: Seq<(Option<u64>, Seq<char>)>,
    new_keys: Seq<(Option<u64>, Seq<char>)>,
    until: int,
) -> bool {
    &&& slots.len() == previous.len()
    &&& claimed_by.len() == previous.len()
    &&& forall|o: int|
        0 <= o < previous.len() ==> match #[trigger] claimed_by[o] {
            Some(j) => j < until && partners(old_keys, new_keys, o, j as int) && slots[o] is Some
                && slots[o]->0@ == made[j as int],
            None => slots[o] == Some(previous[o]) && forall|j: int|
                0 <= j < until ==> !partners(old_keys, new_keys, o, j),
        }
}

/// Whether `fresh` holds, in their order, the children that were built for
/// those of the first `until` children of the recipe that found no old child.
pub open spec fn fresh_sound(
    fresh: Seq<(usize, ElementWithChildrenSnapshot)>,
    made: Seq<SnapshotView>,
    old_keys: Seq<(Option<u64>, Seq<char>)>,
    new_keys: Seq<(Option<u64>, Seq<char>)>,
    until: int,
) -> bool {
    &&& forall|p: int|
        0 <= p < fresh.len() ==> (#[trigger] fresh[p]).0 < until && partner(
            old_keys,
            new_keys,
            fresh[p].0 as int,
        ) is None && fresh[p].1@ == made[fresh[p].0 as int]
    &&& forall|p: int, q: int| 0 <= p < q < fresh.len() ==> fresh[p].0 < fresh[q].0
    &&& forall|j: int|
        0 <= j < until && partner(old_keys, new_keys, j) is None ==> #[trigger] is_target(
            targets(fresh),
            j,
        )
}

/// Whether `live` holds each of the `count` children that were made, once,
/// with its place in the recipe.
pub open spec fn live_sound(
    live: Seq<(usize, ElementWithChildrenSnapshot)>,
    made: Seq<SnapshotView>,
    count: int,
) -> bool {
    &&& forall|p: int|
        0 <= p < live.len() ==> (#[trigger] live[p]).0 < count && live[p].1@ == made[live[p].0 as int]
    &&& forall|p: int, q: int| 0 <= p < q < live.len() ==> live[p].0 != live[q].0
    &&& forall|j: int| 0 <= j < count ==> #[trigger] is_target(targets(live), j)
}

/// Everything that taking the leftover children among the first `until` old
/// children out of the live document issues. An old child is left over when no
/// child of the recipe belongs to it.
pub open spec fn leftover_plan(
    olds: Seq<SnapshotView>,
    old_keys: Seq<(Option<u64>, Seq<char>)>,
    new_keys: Seq<(Option<u64>, Seq<char>)>,
    until: int,
) -> Seq<Operation>
    decreases until,
{
    if until <= 0 {
        Seq::empty()
    } else {
        let rest = leftover_plan(olds, old_keys, new_keys, until - 1);
        if is_taken(old_keys, new_keys, until - 1) {
            rest
        } else {
            rest + teardown_plan(olds[until - 1])
        }
    }
}

/// Lists the children as they stand in the live document once every child of
/// the recipe is reconciled: the old children that were taken, in the order
/// they had, and behind them the children that were built. The old children
/// that no child of the recipe took are taken out of the live document, each
/// on its own.
///
/// Fails, with the error of the teardown, where an old child cannot be taken
/// out. No node is moved among its siblings.
pub(crate) fn gather_live<B: DomBackend>(
    doc: &mut LiveDocument<B>,
    slots: Vec<Option<ElementWithChildrenSnapshot>>,
    claimed_by: &Vec<Option<usize>>,
    fresh: Vec<(usize, ElementWithChildrenSnapshot)>,
    Ghost(previous): Ghost<Seq<ElementWithChildrenSnapshot>>,
    Ghost(made): Ghost<Seq<SnapshotView>>,
    Ghost(old_keys): Ghost<Seq<(Option<u64>, Seq<char>)>>,
    Ghost(new_keys): Ghost<Seq<(Option<u64>, Seq<char>)>>,
) -> (r: RuntimeResult<Vec<(usize, ElementWithChildrenSnapshot)>>)
    requires
        made.len() == new_keys.len(),
        old_keys.len() == previous.len(),
        slots_sound(slots@, claimed_by@, previous, made, old_keys, new_keys, made.len() as int),
        fresh_sound(fresh@, made, old_keys, new_keys, made.len() as int),
    ensures
        step(old(doc).issued(), final(doc).issued(), r is Ok),
        r matches Ok(live) ==> live_sound(live@, made, made.len() as int),
        r is Ok ==> completed(
            leftover_plan(snapshot_views(previous), old_keys, new_keys, previous.len() as int),
            since(old(doc).issued(), final(doc).issued()),
        ),
        r matches Err(e) ==> e is Mutation && (e.is_mismatch_on_removal() <==> removal_failed(
            since(old(doc).issued(), final(doc).issued()),
        )),
        fresh@.len() == 0 && made.len() == previous.len() && (forall|o: int|
            0 <= o < previous.len() ==> (#[trigger] claimed_by@[o] matches Some(j) && j == o))
            ==> final(doc).issued() == old(doc).issued() && (r matches Ok(live) && in_order(
            targets(live@),
        )),
{
    let ghost before = doc.issued();
    let ghost count = made.len() as int;
    let ghost in_place = fresh@.len() == 0 && made.len() == previous.len() && (forall|o: int|
        0 <= o < previous.len() ==> (#[trigger] claimed_by@[o] matches Some(j) && j == o));
    let mut slots = slots;
    let mut fresh = fresh;
    let mut live: Vec<(usize, ElementWithChildrenSnapshot)> = Vec::new();
    let ghost mut source: Seq<int> = Seq::empty();
    let ghost olds = snapshot_views(previous);
    proof {
        lemma_step_nothing(before);
        lemma_completed_nothing(before);
        lemma_snapshot_views(previous);
    }
    let mut o: usize = 0;
    while o < slots.len()
        invariant
            o <= slots@.len(),
            olds == snapshot_views(previous),
            olds.len() == previous.len(),
            forall|at: int| 0 <= at < previous.len() ==> #[trigger] olds[at] == previous[at]@,
            before.is_prefix_of(doc.issued()),
            completed(leftover_plan(olds, old_keys, new_keys, o as int), since(before, doc.issued())),
            slots@.len() == previous.len(),
            claimed_by@.len() == previous.len(),
            count == made.len(),
            made.len() == new_keys.len(),
            old_keys.len() == previous.len(),
            before == old(doc).issued(),
            in_place == (fresh@.len() == 0 && made.len() == previous.len() && (forall|o: int|
                0 <= o < previous.len() ==> (#[trigger] claimed_by@[o] matches Some(j) && j == o))),
            step(before, doc.issued(), true),
            fresh_sound(fresh@, made, old_keys, new_keys, count),
            forall|at: int|
                0 <= at < previous.len() ==> match #[trigger] claimed_by@[at] {
                    Some(j) => j < count && partners(old_keys, new_keys, at, j as int) && (at >= o
                        ==> slots@[at] is Some && slots@[at]->0@ == made[j as int]),
                    None => (at >= o ==> slots@[at] == Some(previous[at])) && forall|j: int|
                        0 <= j < count ==> !partners(old_keys, new_keys, at, j),
                },
            source.len() == live@.len(),
            forall|p: int|
                0 <= p < live@.len() ==> 0 <= #[trigger] source[p] < o && claimed_by@[source[p]]
                    == Some(live@[p].0) && live@[p].1@ == made[live@[p].0 as int],
            forall|p: int, q: int| 0 <= p < q < source.len() ==> source[p] < source[q],
            forall|at: int|
                0 <= at < o ==> (#[trigger] claimed_by@[at] matches Some(j) ==> is_target(
                    targets(live@),
                    j as int,
                )),
            in_place ==> doc.issued() == before && live@.len() == o && forall|p: int|
                0 <= p < o ==> (#[trigger] live@[p]).0 == p,
        decreases slots@.len() - o,
    {
        let ghost listed = live@;
        assert(claimed_by@[o as int] is Some || claimed_by@[o as int] is None);
        let taken = slots[o].take();
        let child = taken.unwrap();
        match claimed_by[o] {
            Some(target) => {
                live.push((target, child));
                proof {
                    assert(partners(old_keys, new_keys, o as int, target as int));
                    assert(is_taken(old_keys, new_keys, o as int));
                    source = source.push(o as int);
                    assert(targets(live@)[listed.len() as int] == target);
                    assert forall|at: int| 0 <= at < o + 1 implies (#[trigger] claimed_by@[at] matches Some(
                        j,
                    ) ==> is_target(targets(live@), j as int)) by {
                        if at < o {
                            if let Some(j) = claimed_by@[at] {
                                let p = choose|p: int|
                                    0 <= p < targets(listed).len() && #[trigger] targets(listed)[p]
                                        == j as int;
                                assert(targets(live@)[p] == j as int);
                            }
                        }
                    }
                }
            },
            None => {
                let ghost journal = doc.issued();
                let r = teardown(doc, &child);
                proof {
                    assert(!is_taken(old_keys, new_keys, o as int)) by {
                        if is_taken(old_keys, new_keys, o as int) {
                            let n = choose|n: int| partners(old_keys, new_keys, o as int, n);
                            assert(0 <= n < made.len());
                        }
                    }
                    if r is Ok {
                        lemma_completed_then(
                            leftover_plan(olds, old_keys, new_keys, o as int),
                            teardown_plan(child@),
                            before,
                            journal,
                            doc.issued(),
                        );
                    }
                    lemma_teardown_moves_nothing(child@);
                    lemma_plan_is_step(teardown_plan(child@), journal, doc.issued(), r is Ok);
                    lemma_step_then(before, journal, doc.issued(), r is Ok);
                    if r is Err {
                        lemma_removal_failed_since(before, journal, doc.issued());
                    }
                }
                match r {
                    Ok(()) => {},
                    Err(e) => {
                        return Err(e);
                    },
                }
            },
        }
        o = o + 1;
    }
    let ghost reused = live@;
    let ghost built = fresh@;
    live.append(&mut fresh);
    proof {
        assert(live@ =~= reused + built);
        assert forall|p: int, q: int| 0 <= p < q < live@.len() implies live@[p].0 != live@[q].0 by {
            if q < reused.len() {
                if live@[p].0 == live@[q].0 {
                    lemma_partners_unique(
                        old_keys,
                        new_keys,
                        source[p],
                        live@[p].0 as int,
                        source[q],
                        live@[q].0 as int,
                    );
                }
            } else if p < reused.len() {
                let at = source[p];
                assert(claimed_by@[at] == Some(live@[p].0));
                assert(partners(old_keys, new_keys, at, live@[p].0 as int));
                super::matching::lemma_partner_is(old_keys, new_keys, at, live@[p].0 as int);
                assert(built[q - reused.len()] == live@[q]);
            } else {
                assert(built[p - reused.len()] == live@[p]);
                assert(built[q - reused.len()] == live@[q]);
            }
        }
        assert forall|p: int| 0 <= p < live@.len() implies (#[trigger] live@[p]).0 < count
            && live@[p].1@ == made[live@[p].0 as int] by {
            if p < reused.len() {
                assert(claimed_by@[source[p]] == Some(live@[p].0));
            } else {
                assert(built[p - reused.len()] == live@[p]);
            }
        }
        assert forall|j: int| 0 <= j < count implies #[trigger] is_target(targets(live@), j) by {
            if partner(old_keys, new_keys, j) is None {
                assert(is_target(targets(built), j));
                let p = choose|p: int| 0 <= p < targets(built).len() && #[trigger] targets(built)[p] == j;
                assert(targets(live@)[reused.len() + p] == j);
            } else {
                let at = partner(old_keys, new_keys, j)->0;
                assert(partners(old_keys, new_keys, at, j));
                match claimed_by@[at] {
                    Some(other) => {
                        lemma_partners_unique(old_keys, new_keys, at, j, at, other as int);
                    },
                    None => {},
                }
                assert(is_target(targets(reused), j));
                let p = choose|p: int|
                    0 <= p < targets(reused).len() && #[trigger] targets(reused)[p] == j;
                assert(targets(live@)[p] == j);
            }
        }
    }
    Ok(live)
}

} // verus!
