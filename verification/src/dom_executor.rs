use self::children::{fresh_sound, gather_live, leftover_plan, pair_children, slots_sound};
use self::matching::{
    lemma_partner_is, lemma_partners_unique, lemma_same_keys_pair_in_place,
    lemma_single_key_pairs, occurrences, partner, partners, place,
};
use self::modify_sync::{
    lemma_sync_moves_nothing, lemma_sync_of_same, lemma_synced_mirrors, modify_synced, sync_modify,
    sync_plan,
};
use self::reorder_children::{
    arranges, is_target, lemma_arranged_by_place, only_moves, targets, SortableChildren,
};
use self::slots::into_slots;
use self::teardown::{lemma_teardown_moves_nothing, teardown, teardown_plan};
use crate::data::{ElementId, TagName};
use crate::element_builder::{
    lemma_recipe_views, recipe_views, ElementRecipe, ElementWithChildrenRecipe, RecipeView,
};
use crate::mutation::element::builder_mutation::marker::create::ElementCreateMutation;
use crate::mutation::element::builder_mutation::marker::create::ElementCreateMutationLog;
use crate::mutation::element::builder_mutation::marker::finish::ElementFinishMutation;
use crate::mutation::element::builder_mutation::marker::finish::ElementFinishMutationLog;
use crate::mutation::element::builder_mutation::modify::ElementBuilderModifyMutation;
use crate::mutation::element::builder_mutation::modify::ElementBuilderModifyMutationLog;
use crate::mutation::element::builder_mutation::modify::ModifyView;
use crate::mutation::traits::Perform;
use crate::raw_operations::backend::DomBackend;
use crate::raw_operations::journal::{
    all_succeeded, completed, done, joined, lemma_completed_is_done, lemma_completed_then,
    lemma_done_both, lemma_interrupted_at_once, lemma_pass_nothing, lemma_pass_then,
    lemma_plan_is_step, lemma_step_is_pass, lemma_step_then, move_failed, pass, removal_failed,
    since, spares, step, Issued, Operation,
};
use crate::raw_operations::LiveDocument;
use crate::{RuntimeError, RuntimeResult};
use vstd::prelude::*;

pub mod children;
pub mod matching;
pub mod modify_sync;
pub mod reorder_children;
pub mod slots;
pub mod teardown;

verus! {

/// A mutation that was performed, with the receipt it answered.
#[derive(Debug)]
pub struct SnapshotEntryV2<Mutation, Log> {
    pub mutation: Mutation,
    pub log: Log,
}

pub type ElementCreateSnapshotEntry = SnapshotEntryV2<ElementCreateMutation, ElementCreateMutationLog>;

pub type ElementFinishSnapshotEntry = SnapshotEntryV2<ElementFinishMutation, ElementFinishMutationLog>;

pub type ElementBuilderModifySnapshotEntry = SnapshotEntryV2<
    ElementBuilderModifyMutation,
    ElementBuilderModifyMutationLog,
>;

/// What was applied to one node of the live document.
#[derive(Debug)]
pub struct ElementSnapshot {
    pub key: Option<u64>,
    pub create: ElementCreateSnapshotEntry,
    pub modify: Vec<ElementBuilderModifySnapshotEntry>,
    pub finish: ElementFinishSnapshotEntry,
}

/// What was applied to a tree of nodes of the live document.
#[derive(Debug)]
pub struct ElementWithChildrenSnapshot {
    pub element: ElementSnapshot,
    pub children: Vec<Self>,
}

/// The engine's record of what the live document holds under one root, and the
/// one place where passes over it start.
///
/// After a pass that failed the record is gone for good: the executor is
/// poisoned, and every further pass fails at once, without touching the live
/// document.
#[derive(Debug)]
pub struct DomExecutor {
    pub executed: Option<ElementWithChildrenSnapshot>,
}

/// A snapshot with sequences in the place of vectors.
pub struct SnapshotView {
    pub key: Option<u64>,
    pub create: ElementCreateSnapshotEntry,
    pub modify: Seq<ElementBuilderModifySnapshotEntry>,
    pub finish: ElementFinishSnapshotEntry,
    pub children: Seq<SnapshotView>,
}

/// The views of the mutations of a list of entries.
pub open spec fn entry_views(entries: Seq<ElementBuilderModifySnapshotEntry>) -> Seq<ModifyView> {
    entries.map_values(|entry: ElementBuilderModifySnapshotEntry| entry.mutation@)
}

impl View for ElementWithChildrenSnapshot {
    type V = SnapshotView;

    open spec fn view(&self) -> SnapshotView
        decreases self,
    {
        SnapshotView {
            key: self.element.key,
            create: self.element.create,
            modify: self.element.modify@,
            finish: self.element.finish,
            children: snapshot_views(self.children@),
        }
    }
}

/// The views of a list of snapshots, in their order.
pub open spec fn snapshot_views(snapshots: Seq<ElementWithChildrenSnapshot>) -> Seq<SnapshotView>
    decreases snapshots,
{
    if snapshots.len() == 0 {
        Seq::empty()
    } else {
        snapshot_views(snapshots.drop_last()).push(snapshots.last()@)
    }
}

/// The views of a list of snapshots are as many as the snapshots, and each is
/// the view of the snapshot at its place.
pub proof fn lemma_snapshot_views(snapshots: Seq<ElementWithChildrenSnapshot>)
    ensures
        snapshot_views(snapshots).len() == snapshots.len(),
        forall|i: int|
            0 <= i < snapshots.len() ==> #[trigger] snapshot_views(snapshots)[i] == snapshots[i]@,
    decreases snapshots.len(),
{
    reveal_with_fuel(snapshot_views, 2);
    if snapshots.len() > 0 {
        lemma_snapshot_views(snapshots.drop_last());
        assert(snapshot_views(snapshots) == snapshot_views(snapshots.drop_last()).push(snapshots.last()@));
    } else {
        assert(snapshot_views(snapshots) == Seq::<SnapshotView>::empty());
    }
}

impl ElementWithChildrenSnapshot {
    /// The view of a snapshot holds the snapshot's own entries, and the views
    /// of its children in their order.
    pub proof fn lemma_view(&self)
        ensures
            self@.key == self.element.key,
            self@.create == self.element.create,
            self@.modify == self.element.modify@,
            self@.finish == self.element.finish,
            self@.children == snapshot_views(self.children@),
            self@.children.len() == self.children@.len(),
            forall|i: int|
                0 <= i < self.children@.len() ==> #[trigger] self@.children[i]
                    == self.children@[i]@,
    {
        lemma_snapshot_views(self.children@);
    }
}

impl SnapshotView {
    /// The node of the live document that this snapshot is about.
    pub open spec fn handle(self) -> ElementId {
        self.create.log.element_id
    }

    /// The kind of the node.
    pub open spec fn kind(self) -> Seq<char> {
        self.create.mutation@
    }

    /// What tells the children of one node apart: the key and the kind.
    pub open spec fn child_key(self) -> (Option<u64>, Seq<char>) {
        (self.key, self.kind())
    }

    /// Whether the snapshot records exactly what `recipe` asks for: the same
    /// key and kind, the same modify mutations in the same order, and children
    /// that do so one by one.
    pub open spec fn mirrors(self, recipe: RecipeView) -> bool
        decreases self,
    {
        &&& self.key == recipe.key
        &&& self.kind() == recipe.kind
        &&& entry_views(self.modify) == recipe.modify
        &&& self.children.len() == recipe.children.len()
        &&& forall|i: int|
            0 <= i < self.children.len() ==> (#[trigger] self.children[i]).mirrors(
                recipe.children[i],
            )
    }

    /// Whether every receipt in the snapshot is the receipt of its mutation and
    /// names the snapshot's own node, here and in every child.
    pub open spec fn well_formed(self) -> bool
        decreases self,
    {
        &&& self.create.log.kind@ == self.kind()
        &&& self.finish.log.element_id == self.handle()
        &&& forall|i: int|
            0 <= i < self.modify.len() ==> (#[trigger] self.modify[i]).log.answers(
                &self.modify[i].mutation,
            )
        &&& forall|i: int| 0 <= i < self.children.len() ==> (#[trigger] self.children[i]).well_formed()
    }
}

/// The keys of a list of children.
pub open spec fn child_keys(children: Seq<SnapshotView>) -> Seq<(Option<u64>, Seq<char>)> {
    children.map_values(|child: SnapshotView| child.child_key())
}

/// The keys of a list of recipes.
pub open spec fn recipe_keys(children: Seq<RecipeView>) -> Seq<(Option<u64>, Seq<char>)> {
    children.map_values(|child: RecipeView| child.child_key())
}

/// The performing of the mutations of `entries`, in their order.
pub open spec fn modify_performs(entries: Seq<ElementBuilderModifySnapshotEntry>, target: ElementId) -> Seq<
    Operation,
>
    decreases entries.len(),
{
    if entries.len() == 0 {
        Seq::empty()
    } else {
        modify_performs(entries.drop_last(), target).push(entries.last().mutation.operation(target))
    }
}

/// Everything that building the subtree of `snapshot` under `parent` issued:
/// the node is made and attached, its mutations are performed in their order,
/// then its children are built, first to last, each in the same way.
pub open spec fn build_plan(snapshot: SnapshotView, parent: ElementId) -> Seq<Operation>
    decreases snapshot, 0int,
{
    seq![
        Operation::CreateElement { kind: snapshot.kind() },
        Operation::InsertElement { element: snapshot.handle(), to: parent },
    ] + modify_performs(snapshot.modify, snapshot.handle()) + children_build_plan(
        snapshot.children,
        snapshot.handle(),
        snapshot.children.len() as int,
    )
}

/// Everything that building the first `until` of `children` under `parent`
/// issued.
pub open spec fn children_build_plan(children: Seq<SnapshotView>, parent: ElementId, until: int) -> Seq<
    Operation,
>
    decreases children, until,
{
    if until <= 0 || until > children.len() {
        Seq::empty()
    } else {
        children_build_plan(children, parent, until - 1) + build_plan(children[until - 1], parent)
    }
}

/// The plan for the first children does not depend on the children that follow
/// them.
pub proof fn lemma_children_build_plan_of_start(
    children: Seq<SnapshotView>,
    more: Seq<SnapshotView>,
    parent: ElementId,
    until: int,
)
    requires
        0 <= until <= children.len() <= more.len(),
        forall|i: int| 0 <= i < children.len() ==> children[i] == more[i],
    ensures
        children_build_plan(children, parent, until) == children_build_plan(more, parent, until),
    decreases until,
{
    reveal_with_fuel(children_build_plan, 2);
    if until > 0 {
        lemma_children_build_plan_of_start(children, more, parent, until - 1);
    }
}

/// Builds the subtree that `recipe` describes as the last child of
/// `root_element`, and answers the snapshot of what was built.
///
/// On success the snapshot records exactly what the recipe asks for, every
/// receipt in it is the receipt of its mutation, and the journal grew by
/// exactly `build_plan` of the snapshot. Building stops at the first operation
/// that fails; the error is `Mutation`. No node is moved among its siblings.
pub fn build_new_child<B: DomBackend>(
    doc: &mut LiveDocument<B>,
    root_element: ElementId,
    recipe: &ElementWithChildrenRecipe,
) -> (r: RuntimeResult<ElementWithChildrenSnapshot>)
    ensures
        step(old(doc).issued(), final(doc).issued(), r is Ok),
        r matches Ok(built) ==> {
            &&& built@.mirrors(recipe@)
            &&& built@.well_formed()
            &&& completed(
                build_plan(built@, root_element),
                since(old(doc).issued(), final(doc).issued()),
            )
        },
        r matches Err(e) ==> e is Mutation && !e.is_mismatch_on_removal() && !removal_failed(
            since(old(doc).issued(), final(doc).issued()),
        ),
    decreases recipe,
{
    let ghost before = doc.issued();
    proof {
        recipe.lemma_view();
    }
    let create_log = match recipe.element.create.perform(doc, root_element) {
        Ok(log) => log,
        Err(e) => {
            return Err(RuntimeError::Mutation(e));
        },
    };
    let handle = create_log.element_id;
    let create = SnapshotEntryV2 { mutation: recipe.element.create.clone(), log: create_log };
    let ghost opening = seq![
        Operation::CreateElement { kind: recipe.element.create.kind@ },
        Operation::InsertElement { element: handle, to: root_element },
    ];
    proof {
        assert(before.is_prefix_of(doc.issued()));
        assert(since(before, doc.issued()) =~= recipe.element.create.operations(
            root_element,
            handle,
        ));
    }
    let mut modify: Vec<ElementBuilderModifySnapshotEntry> = Vec::new();
    let mut m: usize = 0;
    while m < recipe.element.modify.len()
        invariant
            m <= recipe.element.modify@.len(),
            modify@.len() == m,
            before == old(doc).issued(),
            step(before, doc.issued(), true),
            completed(opening + modify_performs(modify@, handle), since(before, doc.issued())),
            forall|j: int|
                0 <= j < m ==> (#[trigger] modify@[j]).mutation == recipe.element.modify@[j]
                    && modify@[j].log.answers(&modify@[j].mutation),
        decreases recipe.element.modify@.len() - m,
    {
        let ghost journal = doc.issued();
        let ghost done = opening + modify_performs(modify@, handle);
        let ghost entries = modify@;
        let mutation = &recipe.element.modify[m];
        let r = mutation.perform(doc, handle);
        proof {
            lemma_interrupted_at_once(journal, mutation.operation(handle));
            lemma_step_then(before, journal, doc.issued(), r is Ok);
        }
        let log = match r {
            Ok(log) => log,
            Err(e) => {
                return Err(RuntimeError::Mutation(e));
            },
        };
        modify.push(SnapshotEntryV2 { mutation: mutation.clone(), log });
        proof {
            assert(modify@.drop_last() =~= entries);
            assert(opening + modify_performs(modify@, handle) =~= done + seq![
                mutation.operation(handle),
            ]);
            lemma_completed_then(
                done,
                seq![mutation.operation(handle)],
                before,
                journal,
                doc.issued(),
            );
        }
        m = m + 1;
    }
    let ghost written = opening + modify_performs(modify@, handle);
    let mut children: Vec<ElementWithChildrenSnapshot> = Vec::new();
    let mut c: usize = 0;
    while c < recipe.children.len()
        invariant
            c <= recipe.children@.len(),
            children@.len() == c,
            before == old(doc).issued(),
            step(before, doc.issued(), true),
            completed(
                written + children_build_plan(snapshot_views(children@), handle, c as int),
                since(before, doc.issued()),
            ),
            forall|j: int|
                0 <= j < c ==> (#[trigger] children@[j])@.mirrors(recipe.children@[j]@)
                    && children@[j]@.well_formed(),
        decreases recipe.children@.len() - c,
    {
        let ghost journal = doc.issued();
        let ghost built = children@;
        let ghost done = written + children_build_plan(snapshot_views(built), handle, c as int);
        let r = build_new_child(doc, handle, &recipe.children[c]);
        proof {
            lemma_step_then(before, journal, doc.issued(), r is Ok);
        }
        let child = match r {
            Ok(child) => child,
            Err(e) => {
                return Err(e);
            },
        };
        let ghost plan = build_plan(child@, handle);
        children.push(child);
        proof {
            lemma_snapshot_views(built);
            lemma_snapshot_views(children@);
            lemma_children_build_plan_of_start(
                snapshot_views(built),
                snapshot_views(children@),
                handle,
                c as int,
            );
            assert(children_build_plan(snapshot_views(children@), handle, c as int + 1)
                == children_build_plan(snapshot_views(children@), handle, c as int) + plan);
            assert(written + children_build_plan(snapshot_views(children@), handle, c as int + 1)
                =~= done + plan);
            lemma_completed_then(done, plan, before, journal, doc.issued());
        }
        c = c + 1;
    }
    let finish_log = match recipe.element.finish.perform(doc, handle) {
        Ok(log) => log,
        Err(e) => {
            return Err(RuntimeError::Mutation(e));
        },
    };
    let finish = SnapshotEntryV2 { mutation: recipe.element.finish, log: finish_log };
    let built = ElementWithChildrenSnapshot {
        element: ElementSnapshot { key: recipe.element.key, create, modify, finish },
        children,
    };
    proof {
        built.lemma_view();
        assert(entry_views(built@.modify) =~= recipe@.modify);
        assert(modify_performs(built@.modify, handle) == modify_performs(modify@, handle));
    }
    Ok(built)
}

/// The snapshot of a root that nothing was applied to yet.
pub open spec fn bare_root(kind: TagName, root: ElementId) -> SnapshotView {
    SnapshotView {
        key: None,
        create: SnapshotEntryV2 {
            mutation: ElementCreateMutation { kind },
            log: ElementCreateMutationLog { kind, element_id: root },
        },
        modify: Seq::empty(),
        finish: SnapshotEntryV2 {
            mutation: ElementFinishMutation {  },
            log: ElementFinishMutationLog { element_id: root },
        },
        children: Seq::empty(),
    }
}

/// What a pass asks of the root: to stay what it is, with the tree of `recipe`
/// as its only child.
pub open spec fn root_recipe(root: SnapshotView, recipe: RecipeView) -> RecipeView {
    RecipeView {
        key: None,
        kind: root.kind(),
        modify: entry_views(root.modify),
        children: seq![recipe],
    }
}

impl DomExecutor {
    /// Whether an earlier pass failed, so that no further pass will run.
    pub open spec fn poisoned(&self) -> bool {
        self.executed is None
    }

    /// An executor for the tree under `current_root`, a node that is already
    /// part of the live document. Nothing is issued.
    pub fn new<B: DomBackend>(doc: &mut LiveDocument<B>, current_root: ElementId) -> (executor: Self)
        ensures
            final(doc).issued() == old(doc).issued(),
            executor.executed matches Some(root) && exists|kind: TagName|
                root@ == bare_root(kind, current_root),
            executor.executed matches Some(root) && root@.well_formed(),
    {
        let kind = doc.tag_name(current_root);
        let root = ElementWithChildrenSnapshot {
            element: ElementSnapshot {
                key: None,
                create: SnapshotEntryV2 {
                    mutation: ElementCreateMutation { kind: kind.clone() },
                    log: ElementCreateMutationLog { kind, element_id: current_root },
                },
                modify: Vec::new(),
                finish: SnapshotEntryV2 {
                    mutation: ElementFinishMutation {  },
                    log: ElementFinishMutationLog { element_id: current_root },
                },
            },
            children: Vec::new(),
        };
        proof {
            root.lemma_view();
            assert(root@.modify =~= Seq::empty());
            assert(root@.children =~= Seq::empty());
            assert(root@ == bare_root(kind, current_root));
        }
        DomExecutor { executed: Some(root) }
    }

    /// One pass: brings the live document to what `new_mutations` describes,
    /// with the node that holds the focus pinned. The focus is read from the
    /// live document, once, before anything is issued; `rebuild_pinned` does
    /// the work from there, and says of the pinned node what cannot be said
    /// here, where the caller does not know which node it is.
    pub fn rebuild<B: DomBackend>(
        &mut self,
        doc: &mut LiveDocument<B>,
        new_mutations: ElementWithChildrenRecipe,
    ) -> (r: RuntimeResult<()>)
        ensures
            pass(old(doc).issued(), final(doc).issued(), None, r is Ok || old(self).poisoned()),
            old(self).poisoned() <==> r matches Err(RuntimeError::RuntimeCrashedOnPreviousRedraw),
            old(self).poisoned() ==> final(doc).issued() == old(doc).issued(),
            r is Err <==> final(self).poisoned(),
            r matches Err(e) ==> (e.is_mismatch_on_removal() <==> removal_failed(
                since(old(doc).issued(), final(doc).issued()),
            )) && (e is Reparenting <==> move_failed(
                since(old(doc).issued(), final(doc).issued()),
            )),
            r is Ok ==> reconciled(
                Some(old(self).executed->0@),
                root_recipe(old(self).executed->0@, new_mutations@),
                final(self).executed->0@,
            ),
            !old(self).poisoned() && old(self).executed->0@.mirrors(
                root_recipe(old(self).executed->0@, new_mutations@),
            ) ==> final(doc).issued() == old(doc).issued() && r is Ok,
    {
        let do_not_move = doc.active_element();
        self.rebuild_pinned(doc, new_mutations, do_not_move)
    }

    /// One pass with `do_not_move` as the pinned node.
    ///
    /// A poisoned executor fails at once with `RuntimeCrashedOnPreviousRedraw`
    /// and issues nothing. Otherwise the root is reconciled with a recipe that
    /// leaves the root as it is and gives it the tree of `new_mutations` as its
    /// only child. The pass succeeds exactly when every operation it issued
    /// went through, and no move relocates the pinned node. On success the new
    /// snapshot is kept, and what was issued is exactly what `traced` lays
    /// down; on failure the executor is poisoned. Where the snapshot already
    /// records what is asked for, nothing is issued.
    ///
    /// The error says that another node left the live document than the one
    /// that was to leave exactly when the operation that failed is the removal
    /// of a node.
    pub fn rebuild_pinned<B: DomBackend>(
        &mut self,
        doc: &mut LiveDocument<B>,
        new_mutations: ElementWithChildrenRecipe,
        do_not_move: Option<ElementId>,
    ) -> (r: RuntimeResult<()>)
        ensures
            pass(
                old(doc).issued(),
                final(doc).issued(),
                do_not_move,
                r is Ok || old(self).poisoned(),
            ),
            old(self).poisoned() <==> r matches Err(RuntimeError::RuntimeCrashedOnPreviousRedraw),
            old(self).poisoned() ==> final(doc).issued() == old(doc).issued(),
            r is Err <==> final(self).poisoned(),
            r matches Err(e) ==> (e.is_mismatch_on_removal() <==> removal_failed(
                since(old(doc).issued(), final(doc).issued()),
            )) && (e is Reparenting <==> move_failed(
                since(old(doc).issued(), final(doc).issued()),
            )),
            r is Ok ==> reconciled(
                Some(old(self).executed->0@),
                root_recipe(old(self).executed->0@, new_mutations@),
                final(self).executed->0@,
            ),
            r is Ok ==> issued_by(
                Some(old(self).executed->0@),
                root_recipe(old(self).executed->0@, new_mutations@),
                final(self).executed->0@,
                old(self).executed->0@.handle(),
                do_not_move,
                since(old(doc).issued(), final(doc).issued()),
            ),
            !old(self).poisoned() && old(self).executed->0@.mirrors(
                root_recipe(old(self).executed->0@, new_mutations@),
            ) ==> final(doc).issued() == old(doc).issued() && r is Ok,
    {
        let root = match self.executed.take() {
            Some(root) => root,
            None => {
                proof {
                    lemma_pass_nothing(doc.issued(), do_not_move);
                }
                return Err(RuntimeError::RuntimeCrashedOnPreviousRedraw);
            },
        };
        let current_root = root.element.create.log.element_id;
        let mut modify: Vec<ElementBuilderModifyMutation> = Vec::new();
        let mut m: usize = 0;
        while m < root.element.modify.len()
            invariant
                m <= root.element.modify@.len(),
                modify@.len() == m,
                forall|j: int|
                    0 <= j < m ==> #[trigger] modify@[j] == root.element.modify@[j].mutation,
            decreases root.element.modify@.len() - m,
        {
            modify.push(root.element.modify[m].mutation.clone());
            m = m + 1;
        }
        let ghost wanted = new_mutations@;
        let mut children: Vec<ElementWithChildrenRecipe> = Vec::new();
        children.push(new_mutations);
        let new = ElementWithChildrenRecipe {
            element: ElementRecipe {
                key: None,
                create: root.element.create.mutation.clone(),
                modify,
                finish: root.element.finish.mutation,
            },
            children,
        };
        proof {
            root.lemma_view();
            new.lemma_view();
            assert(new@.modify =~= entry_views(root@.modify));
            assert(new@.children =~= seq![wanted]);
            assert(new@ == root_recipe(root@, wanted));
        }
        match root.rebuild(doc, current_root, new, do_not_move) {
            Ok(snapshot) => {
                self.executed = Some(snapshot);
                Ok(())
            },
            Err(e) => Err(e),
        }
    }
}

/// The old child that belongs to the child at `i` of the recipe, if there is
/// one: children go together by key and kind, the first with the first, the
/// second with the second, and so on.
pub open spec fn counterpart(old: Seq<SnapshotView>, recipes: Seq<RecipeView>, i: int) -> Option<
    SnapshotView,
> {
    match partner(child_keys(old), recipe_keys(recipes), i) {
        Some(o) => Some(old[o]),
        None => None,
    }
}

/// Whether `new` is what reconciling `old` with `recipe` leaves.
///
/// In every case `new` records exactly what the recipe asks for. Where there
/// was a node of the same kind, it is kept: `new` is about the same node of
/// the live document, it keeps the entries of the mutations that are wanted
/// again as they are, and its children are reconciled in the same way, each
/// with the old child that belongs to it. A snapshot that already records what
/// the recipe asks for stays as it is. Where there was no node of that kind,
/// `new` is freshly built.
pub open spec fn reconciled(old: Option<SnapshotView>, recipe: RecipeView, new: SnapshotView) -> bool
    decreases new,
{
    &&& new.mirrors(recipe)
    &&& match old {
        Some(old) => if old.kind() == recipe.kind {
            &&& new.create == old.create
            &&& modify_synced(old.modify, recipe.modify, new.modify)
            &&& children_reconciled(old.children, recipe.children, new.children)
            &&& old.well_formed() ==> new.well_formed()
            &&& old.mirrors(recipe) && old.well_formed() ==> new == old
        } else {
            new.well_formed()
        },
        None => new.well_formed(),
    }
}

/// Whether `new` holds, for each child of the recipe and in the recipe's
/// order, what reconciling that child with the old child that belongs to it
/// leaves.
pub open spec fn children_reconciled(
    old: Seq<SnapshotView>,
    recipes: Seq<RecipeView>,
    new: Seq<SnapshotView>,
) -> bool
    decreases new,
{
    &&& new.len() == recipes.len()
    &&& forall|i: int|
        0 <= i < new.len() ==> reconciled(counterpart(old, recipes, i), recipes[i], #[trigger] new[i])
}

/// Whether each old child already records what the child of the recipe at the
/// same place asks for.
pub open spec fn all_mirror(old: Seq<SnapshotView>, recipes: Seq<RecipeView>) -> bool {
    &&& old.len() == recipes.len()
    &&& forall|i: int| 0 <= i < old.len() ==> (#[trigger] old[i]).mirrors(recipes[i])
}

/// Where each old child records what the child of the recipe at the same place
/// asks for, each child of the recipe goes with the old child at its place.
pub proof fn lemma_mirrors_pair_in_place(old: Seq<SnapshotView>, recipes: Seq<RecipeView>, i: int)
    requires
        all_mirror(old, recipes),
        0 <= i < recipes.len(),
    ensures
        partner(child_keys(old), recipe_keys(recipes), i) == Some(i),
{
    assert(child_keys(old) =~= recipe_keys(recipes)) by {
        assert forall|j: int| 0 <= j < old.len() implies child_keys(old)[j] == recipe_keys(
            recipes,
        )[j] by {
            assert(old[j].mirrors(recipes[j]));
        }
    }
    lemma_same_keys_pair_in_place(child_keys(old), recipe_keys(recipes), i);
}

/// Identity is kept: a child whose key and kind occur once among the old
/// children and once among the children of the recipe is about the same node of
/// the live document before and after, wherever it stands among its siblings
/// and however many of them came or went.
pub proof fn lemma_stable_key_keeps_its_node(
    old: Seq<SnapshotView>,
    recipes: Seq<RecipeView>,
    new: Seq<SnapshotView>,
    o: int,
    i: int,
)
    requires
        children_reconciled(old, recipes, new),
        0 <= o < old.len(),
        0 <= i < recipes.len(),
        old[o].child_key() == recipes[i].child_key(),
        occurrences(child_keys(old), old[o].child_key(), old.len() as int) == 1,
        occurrences(recipe_keys(recipes), recipes[i].child_key(), recipes.len() as int) == 1,
    ensures
        new[i].handle() == old[o].handle(),
        new[i].create == old[o].create,
{
    lemma_single_key_pairs(child_keys(old), recipe_keys(recipes), o, i);
    assert(counterpart(old, recipes, i) == Some(old[o]));
    assert(reconciled(Some(old[o]), recipes[i], new[i]));
}

/// Identity is kept at every pairing: whichever old child belongs to a child
/// of the recipe, what is made of it is about the same node of the live
/// document.
pub proof fn lemma_partner_keeps_its_node(
    old: Seq<SnapshotView>,
    recipes: Seq<RecipeView>,
    new: Seq<SnapshotView>,
    o: int,
    i: int,
)
    requires
        children_reconciled(old, recipes, new),
        partner(child_keys(old), recipe_keys(recipes), i) == Some(o),
    ensures
        new[i].handle() == old[o].handle(),
{
    assert(partners(child_keys(old), recipe_keys(recipes), o, i)) by {
        let chosen = choose|o: int| partners(child_keys(old), recipe_keys(recipes), o, i);
        assert(chosen == o);
    }
    assert(reconciled(Some(old[o]), recipes[i], new[i]));
}

/// A pass is idempotent: what a successful pass leaves already records what
/// the same recipe asks for in the next pass, so that pass issues nothing (see
/// `DomExecutor::rebuild_pinned`).
pub proof fn lemma_same_recipe_again(root: SnapshotView, recipe: RecipeView, new: SnapshotView)
    requires
        reconciled(Some(root), root_recipe(root, recipe), new),
    ensures
        new.mirrors(root_recipe(new, recipe)),
{
}

/// Reconciles each child of the recipe, in the recipe's order, with the old
/// child that `pairs` gives it, or builds it where it has none.
///
/// Answers the slots, where what was made of an old child stands in the place
/// of that child; for each slot, the child of the recipe that took it; the
/// children that were built; and the views of all that was made.
fn reconcile_each<B: DomBackend>(
    doc: &mut LiveDocument<B>,
    root_element: ElementId,
    slots: Vec<Option<ElementWithChildrenSnapshot>>,
    pairs: &Vec<Option<usize>>,
    recipes: &Vec<ElementWithChildrenRecipe>,
    do_not_move: Option<ElementId>,
    Ghost(previous): Ghost<Seq<ElementWithChildrenSnapshot>>,
) -> (r: RuntimeResult<
    (
        Vec<Option<ElementWithChildrenSnapshot>>,
        Vec<Option<usize>>,
        Vec<(usize, ElementWithChildrenSnapshot)>,
        Ghost<Seq<SnapshotView>>,
        Ghost<Seq<Trace>>,
    ),
>)
    requires
        slots@.len() == previous.len(),
        forall|o: int| 0 <= o < previous.len() ==> #[trigger] slots@[o] == Some(previous[o]),
        pairs@.len() == recipes@.len(),
        forall|n: int|
            0 <= n < recipes@.len() ==> place(#[trigger] pairs@[n]) == partner(
                child_keys(snapshot_views(previous)),
                recipe_keys(recipe_views(recipes@)),
                n,
            ),
    ensures
        pass(old(doc).issued(), final(doc).issued(), do_not_move, r is Ok),
        r matches Ok(state) ==> {
            let old_keys = child_keys(snapshot_views(previous));
            let new_keys = recipe_keys(recipe_views(recipes@));
            let made = state.3@;
            &&& made.len() == recipes@.len()
            &&& slots_sound(state.0@, state.1@, previous, made, old_keys, new_keys, made.len() as int)
            &&& fresh_sound(state.2@, made, old_keys, new_keys, made.len() as int)
            &&& children_reconciled(snapshot_views(previous), recipe_views(recipes@), made)
            &&& children_traced(
                snapshot_views(previous),
                recipe_views(recipes@),
                made,
                root_element,
                do_not_move,
                state.4@,
            )
            &&& since(old(doc).issued(), final(doc).issued()) == joined(wholes(state.4@))
            &&& all_mirror(snapshot_views(previous), recipe_views(recipes@)) ==> state.2@.len() == 0
                && forall|o: int|
                0 <= o < previous.len() ==> (#[trigger] state.1@[o] matches Some(j) && j == o)
        },
        r matches Err(e) ==> (e is Mutation || e is UndoingTrailingMutations || e is Reparenting) && (
        e.is_mismatch_on_removal() <==> removal_failed(since(old(doc).issued(), final(doc).issued())))
            && (e is Reparenting <==> move_failed(since(old(doc).issued(), final(doc).issued()))),
        all_mirror(snapshot_views(previous), recipe_views(recipes@)) ==> final(doc).issued() == old(
            doc,
        ).issued() && r is Ok,
    decreases recipes, 0int,
{
    let ghost before = doc.issued();
    let ghost olds = snapshot_views(previous);
    let ghost news = recipe_views(recipes@);
    let ghost old_keys = child_keys(olds);
    let ghost new_keys = recipe_keys(news);
    let ghost same = all_mirror(olds, news);
    proof {
        lemma_snapshot_views(previous);
        lemma_recipe_views(recipes@);
        lemma_pass_nothing(before, do_not_move);
    }
    let mut slots = slots;
    let mut claimed_by: Vec<Option<usize>> = Vec::new();
    let mut filled: usize = 0;
    while filled < slots.len()
        invariant
            filled <= slots@.len(),
            claimed_by@.len() == filled,
            forall|o: int| 0 <= o < filled ==> #[trigger] claimed_by@[o] is None,
        decreases slots@.len() - filled,
    {
        claimed_by.push(None);
        filled = filled + 1;
    }
    let mut fresh: Vec<(usize, ElementWithChildrenSnapshot)> = Vec::new();
    let ghost mut made: Seq<SnapshotView> = Seq::empty();
    let ghost mut parts: Seq<Trace> = Seq::empty();
    proof {
        assert(since(before, doc.issued()) =~= joined(wholes(parts)));
    }
    let mut i: usize = 0;
    while i < recipes.len()
        invariant
            i <= recipes@.len(),
            pairs@.len() == recipes@.len(),
            olds == snapshot_views(previous),
            news == recipe_views(recipes@),
            old_keys == child_keys(olds),
            new_keys == recipe_keys(news),
            same == all_mirror(olds, news),
            olds.len() == previous.len(),
            news.len() == recipes@.len(),
            forall|j: int| 0 <= j < previous.len() ==> #[trigger] olds[j] == previous[j]@,
            forall|j: int| 0 <= j < recipes@.len() ==> #[trigger] news[j] == recipes@[j]@,
            forall|n: int|
                0 <= n < recipes@.len() ==> place(#[trigger] pairs@[n]) == partner(
                    old_keys,
                    new_keys,
                    n,
                ),
            before == old(doc).issued(),
            pass(before, doc.issued(), do_not_move, true),
            made.len() == i,
            slots_sound(slots@, claimed_by@, previous, made, old_keys, new_keys, i as int),
            fresh_sound(fresh@, made, old_keys, new_keys, i as int),
            forall|j: int|
                0 <= j < i ==> reconciled(counterpart(olds, news, j), news[j], #[trigger] made[j]),
            parts.len() == i,
            forall|j: int|
                0 <= j < i ==> traced(
                    counterpart(olds, news, j),
                    news[j],
                    #[trigger] made[j],
                    root_element,
                    do_not_move,
                    parts[j],
                ),
            since(before, doc.issued()) == joined(wholes(parts)),
            same ==> doc.issued() == before && fresh@.len() == 0 && forall|o: int|
                0 <= o < previous.len() ==> (if o < i {
                    #[trigger] claimed_by@[o] matches Some(j) && j == o
                } else {
                    claimed_by@[o] is None
                }),
        decreases recipes@.len() - i,
    {
        let ghost journal = doc.issued();
        let ghost made_before = made;
        let ghost parts_before = parts;
        let ghost fresh_before = fresh@;
        let ghost slots_before = slots@;
        let ghost claimed_before = claimed_by@;
        proof {
            if same {
                lemma_mirrors_pair_in_place(olds, news, i as int);
            }
        }
        match pairs[i] {
            Some(o) => {
                proof {
                    assert(place(pairs@[i as int]) == Some(o as int));
                    assert(partners(old_keys, new_keys, o as int, i as int));
                    match claimed_by@[o as int] {
                        Some(j) => {
                            lemma_partners_unique(
                                old_keys,
                                new_keys,
                                o as int,
                                j as int,
                                o as int,
                                i as int,
                            );
                        },
                        None => {},
                    }
                }
                let taken = slots[o].take();
                let old_child = taken.unwrap();
                let r = rebuild_from(doc, old_child, root_element, &recipes[i], do_not_move);
                proof {
                    lemma_pass_then(before, journal, doc.issued(), do_not_move, r is Ok);
                }
                let child = match r {
                    Ok(child) => child,
                    Err(e) => {
                        return Err(e);
                    },
                };
                proof {
                    let part = choose|part: Trace|
                        part.whole == since(journal, doc.issued()) && #[trigger] traced(
                            Some(previous[o as int]@),
                            recipes@[i as int]@,
                            child@,
                            root_element,
                            do_not_move,
                            part,
                        );
                    made = made.push(child@);
                    parts = parts.push(part);
                    assert(wholes(parts).drop_last() =~= wholes(parts_before));
                    assert(since(before, doc.issued()) =~= since(before, journal) + since(
                        journal,
                        doc.issued(),
                    ));
                }
                slots[o] = Some(child);
                claimed_by[o] = Some(i);
                proof {
                    assert forall|at: int| 0 <= at < previous.len() implies match #[trigger] claimed_by@[at] {
                        Some(j) => j < i + 1 && partners(old_keys, new_keys, at, j as int)
                            && slots@[at] is Some && slots@[at]->0@ == made[j as int],
                        None => slots@[at] == Some(previous[at]) && forall|j: int|
                            0 <= j < i + 1 ==> !partners(old_keys, new_keys, at, j),
                    } by {
                        if at != o {
                            assert(claimed_by@[at] == claimed_before[at]);
                            assert(slots@[at] == slots_before[at]);
                            match claimed_before[at] {
                                Some(j) => {
                                    assert(made[j as int] == made_before[j as int]);
                                },
                                None => {
                                    if partners(old_keys, new_keys, at, i as int) {
                                        lemma_partners_unique(
                                            old_keys,
                                            new_keys,
                                            at,
                                            i as int,
                                            o as int,
                                            i as int,
                                        );
                                    }
                                },
                            }
                        }
                    }
                    assert forall|p: int| 0 <= p < fresh@.len() implies (#[trigger] fresh@[p]).0 < i
                        + 1 && partner(old_keys, new_keys, fresh@[p].0 as int) is None
                        && fresh@[p].1@ == made[fresh@[p].0 as int] by {
                        assert(made[fresh@[p].0 as int] == made_before[fresh@[p].0 as int]);
                    }
                    lemma_partner_is(old_keys, new_keys, o as int, i as int);
                    assert(counterpart(olds, news, i as int) == Some(olds[o as int]));
                    assert forall|j: int| 0 <= j < i + 1 implies reconciled(
                        counterpart(olds, news, j),
                        news[j],
                        #[trigger] made[j],
                    ) by {
                        if j < i {
                            assert(made[j] == made_before[j]);
                        }
                    }
                    assert forall|j: int| 0 <= j < i + 1 implies traced(
                        counterpart(olds, news, j),
                        news[j],
                        #[trigger] made[j],
                        root_element,
                        do_not_move,
                        parts[j],
                    ) by {
                        if j < i {
                            assert(made[j] == made_before[j]);
                            assert(parts[j] == parts_before[j]);
                        }
                    }
                }
            },
            None => {
                proof {
                    assert(place(pairs@[i as int]) is None);
                }
                let r = build_new_child(doc, root_element, &recipes[i]);
                proof {
                    lemma_step_is_pass(journal, doc.issued(), r is Ok, do_not_move);
                    lemma_pass_then(before, journal, doc.issued(), do_not_move, r is Ok);
                }
                let child = match r {
                    Ok(child) => child,
                    Err(e) => {
                        return Err(e);
                    },
                };
                proof {
                    let part = Trace {
                        whole: since(journal, doc.issued()),
                        parts: Seq::empty(),
                        moves: Seq::empty(),
                    };
                    made = made.push(child@);
                    parts = parts.push(part);
                    assert(wholes(parts).drop_last() =~= wholes(parts_before));
                    assert(since(before, doc.issued()) =~= since(before, journal) + since(
                        journal,
                        doc.issued(),
                    ));
                }
                fresh.push((i, child));
                proof {
                    assert forall|at: int| 0 <= at < previous.len() implies match #[trigger] claimed_by@[at] {
                        Some(j) => j < i + 1 && partners(old_keys, new_keys, at, j as int)
                            && slots@[at] is Some && slots@[at]->0@ == made[j as int],
                        None => slots@[at] == Some(previous[at]) && forall|j: int|
                            0 <= j < i + 1 ==> !partners(old_keys, new_keys, at, j),
                    } by {
                        match claimed_by@[at] {
                            Some(j) => {
                                assert(made[j as int] == made_before[j as int]);
                            },
                            None => {
                                if partners(old_keys, new_keys, at, i as int) {
                                    lemma_partner_is(old_keys, new_keys, at, i as int);
                                }
                            },
                        }
                    }
                    assert forall|p: int| 0 <= p < fresh@.len() implies (#[trigger] fresh@[p]).0 < i
                        + 1 && partner(old_keys, new_keys, fresh@[p].0 as int) is None
                        && fresh@[p].1@ == made[fresh@[p].0 as int] by {
                        if p < fresh_before.len() {
                            assert(fresh@[p] == fresh_before[p]);
                            assert(made[fresh@[p].0 as int] == made_before[fresh@[p].0 as int]);
                        }
                    }
                    assert forall|p: int, q: int| 0 <= p < q < fresh@.len() implies fresh@[p].0
                        < fresh@[q].0 by {
                        assert(fresh@[p] == fresh_before[p]);
                        if q < fresh_before.len() {
                            assert(fresh@[q] == fresh_before[q]);
                        }
                    }
                    assert forall|j: int|
                        0 <= j < i + 1 && partner(old_keys, new_keys, j) is None implies #[trigger] is_target(
                        targets(fresh@),
                        j,
                    ) by {
                        if j < i {
                            assert(is_target(targets(fresh_before), j));
                            let p = choose|p: int|
                                0 <= p < targets(fresh_before).len() && #[trigger] targets(
                                    fresh_before,
                                )[p] == j;
                            assert(targets(fresh@)[p] == j);
                        } else {
                            assert(targets(fresh@)[fresh_before.len() as int] == j);
                        }
                    }
                    assert(counterpart(olds, news, i as int) is None);
                    assert forall|j: int| 0 <= j < i + 1 implies reconciled(
                        counterpart(olds, news, j),
                        news[j],
                        #[trigger] made[j],
                    ) by {
                        if j < i {
                            assert(made[j] == made_before[j]);
                        }
                    }
                    assert forall|j: int| 0 <= j < i + 1 implies traced(
                        counterpart(olds, news, j),
                        news[j],
                        #[trigger] made[j],
                        root_element,
                        do_not_move,
                        parts[j],
                    ) by {
                        if j < i {
                            assert(made[j] == made_before[j]);
                            assert(parts[j] == parts_before[j]);
                        }
                    }
                }
            },
        }
        i = i + 1;
    }
    Ok((slots, claimed_by, fresh, Ghost(made), Ghost(parts)))
}

/// Reconciles the children of a node with the children of its recipe.
///
/// Children go together by key and kind, the first of the recipe with the
/// first old one, the second with the second, and so on. A child of the recipe
/// that finds an old child is reconciled with it, so the node of the live
/// document is kept; one that finds none is built. Then the old children that
/// none has taken are taken out of the live document, each on its own, and the
/// children are moved into the order of the recipe; no move relocates the
/// pinned node. Children that already record what the recipe asks for are
/// handed back as they are, and nothing is issued.
pub fn rebuild_children<B: DomBackend>(
    doc: &mut LiveDocument<B>,
    root_element: ElementId,
    previous: Vec<ElementWithChildrenSnapshot>,
    recipes: &Vec<ElementWithChildrenRecipe>,
    do_not_move: Option<ElementId>,
) -> (r: RuntimeResult<Vec<ElementWithChildrenSnapshot>>)
    ensures
        pass(old(doc).issued(), final(doc).issued(), do_not_move, r is Ok),
        r matches Ok(children) ==> children_reconciled(
            snapshot_views(previous@),
            recipe_views(recipes@),
            snapshot_views(children@),
        ),
        r matches Ok(children) ==> exists|parts: Seq<Trace>, moves: Seq<Issued>|
            children_worked(
                snapshot_views(previous@),
                recipe_views(recipes@),
                snapshot_views(children@),
                root_element,
                do_not_move,
                parts,
                moves,
                since(old(doc).issued(), final(doc).issued()),
            ),
        r matches Err(e) ==> (e is Mutation || e is UndoingTrailingMutations || e is Reparenting) && (
        e.is_mismatch_on_removal() <==> removal_failed(since(old(doc).issued(), final(doc).issued())))
            && (e is Reparenting <==> move_failed(since(old(doc).issued(), final(doc).issued()))),
        all_mirror(snapshot_views(previous@), recipe_views(recipes@)) ==> final(doc).issued() == old(
            doc,
        ).issued() && r is Ok,
    decreases recipes, 1int,
{
    let ghost before = doc.issued();
    let ghost olds = snapshot_views(previous@);
    let ghost news = recipe_views(recipes@);
    let ghost old_keys = child_keys(olds);
    let ghost new_keys = recipe_keys(news);
    let ghost same = all_mirror(olds, news);
    let ghost was = previous@;
    proof {
        lemma_snapshot_views(previous@);
        lemma_recipe_views(recipes@);
    }
    let pairs = pair_children(&previous, recipes);
    let slots = into_slots(previous);
    let (slots, claimed_by, fresh, Ghost(made), Ghost(parts)) = match reconcile_each(
        doc,
        root_element,
        slots,
        &pairs,
        recipes,
        do_not_move,
        Ghost(was),
    ) {
        Ok(state) => state,
        Err(e) => {
            return Err(e);
        },
    };
    let ghost reconciled_at = doc.issued();
    let r = gather_live(
        doc,
        slots,
        &claimed_by,
        fresh,
        Ghost(was),
        Ghost(made),
        Ghost(old_keys),
        Ghost(new_keys),
    );
    proof {
        lemma_step_is_pass(reconciled_at, doc.issued(), r is Ok, do_not_move);
        lemma_pass_then(before, reconciled_at, doc.issued(), do_not_move, r is Ok);
    }
    let live = match r {
        Ok(live) => live,
        Err(e) => {
            return Err(e);
        },
    };
    let ghost gathered_at = doc.issued();
    let ghost listed = live@;
    let sortable = SortableChildren { do_not_move, children: live };
    let r = sortable.ordered(doc);
    proof {
        lemma_pass_then(before, gathered_at, doc.issued(), do_not_move, r is Ok);
    }
    let children = match r {
        Ok(children) => children,
        Err(e) => {
            return Err(e);
        },
    };
    proof {
        let order = choose|order: Seq<usize>|
            {
                &&& arranges(order, targets(listed))
                &&& children@.len() == order.len()
                &&& forall|k: int|
                    0 <= k < children@.len() ==> #[trigger] children@[k] == listed[order[k] as int].1
            };
        assert forall|p: int| 0 <= p < targets(listed).len() implies (#[trigger] targets(listed)[p])
            < made.len() by {
            assert(listed[p].0 < made.len());
        }
        assert forall|p: int, q: int| 0 <= p < q < targets(listed).len() implies targets(listed)[p]
            != targets(listed)[q] by {
            assert(listed[p].0 != listed[q].0);
        }
        lemma_arranged_by_place(order, targets(listed), made.len() as int);
        lemma_snapshot_views(children@);
        let leftover = leftover_plan(olds, old_keys, new_keys, olds.len() as int);
        let moves = since(gathered_at, doc.issued());
        lemma_completed_is_done(leftover, since(reconciled_at, gathered_at));
        assert(since(before, doc.issued()) =~= since(before, reconciled_at) + since(
            reconciled_at,
            gathered_at,
        ) + moves);
        assert(snapshot_views(children@) =~= made) by {
            assert forall|k: int| 0 <= k < made.len() implies snapshot_views(children@)[k]
                == made[k] by {
                assert(targets(listed)[order[k] as int] == k);
                assert(listed[order[k] as int].1@ == made[listed[order[k] as int].0 as int]);
            }
        }
        assert(children_worked(
            olds,
            news,
            snapshot_views(children@),
            root_element,
            do_not_move,
            parts,
            moves,
            since(before, doc.issued()),
        ));
    }
    Ok(children)
}

/// What one reconciling issued, taken apart: all of it; what of it belongs to
/// each child of the recipe, taken apart in the same way; and what of it put
/// the children in order.
pub struct Trace {
    pub whole: Seq<Issued>,
    pub parts: Seq<Trace>,
    pub moves: Seq<Issued>,
}

/// All that each of `parts` holds.
pub open spec fn wholes(parts: Seq<Trace>) -> Seq<Seq<Issued>> {
    parts.map_values(|part: Trace| part.whole)
}

/// Whether `trace` is what reconciling `old` with `recipe` issued, where it
/// succeeded and left `new`.
///
/// Where there was no node, or one of another kind than the recipe asks for,
/// the old subtree was taken out, if there was one, and the new one was built
/// under `parent`. Where the node was kept: first the mutations of the node
/// were brought up to date; then each child of the recipe was reconciled, in
/// the recipe's order; then the old children that were left over were taken
/// out, in the order they had; then the children were put in order, with
/// moves among siblings that spare the pinned node.
pub open spec fn traced(
    old: Option<SnapshotView>,
    recipe: RecipeView,
    new: SnapshotView,
    parent: ElementId,
    pin: Option<ElementId>,
    trace: Trace,
) -> bool
    decreases new, 1int,
{
    match old {
        Some(old) => if old.kind() == recipe.kind {
            &&& children_worked(
                old.children,
                recipe.children,
                new.children,
                new.handle(),
                pin,
                trace.parts,
                trace.moves,
                trace.whole.skip(sync_plan(old.modify, recipe.modify, old.handle()).len() as int),
            )
            &&& sync_plan(old.modify, recipe.modify, old.handle()).len() <= trace.whole.len()
            &&& trace.whole.take(sync_plan(old.modify, recipe.modify, old.handle()).len() as int)
                == done(sync_plan(old.modify, recipe.modify, old.handle()))
        } else {
            completed(teardown_plan(old) + build_plan(new, parent), trace.whole)
        },
        None => completed(build_plan(new, parent), trace.whole),
    }
}

/// Whether `whole` is what reconciling the children of a node issued: what
/// `parts` hold for the children of the recipe, one after the other; then the
/// taking out of the old children that were left over; then `moves`, which are
/// moves among siblings, went through, and spare the pinned node.
pub open spec fn children_worked(
    old: Seq<SnapshotView>,
    recipes: Seq<RecipeView>,
    new: Seq<SnapshotView>,
    parent: ElementId,
    pin: Option<ElementId>,
    parts: Seq<Trace>,
    moves: Seq<Issued>,
    whole: Seq<Issued>,
) -> bool
    decreases new, 1int,
{
    &&& children_traced(old, recipes, new, parent, pin, parts)
    &&& only_moves(moves)
    &&& all_succeeded(moves)
    &&& spares(moves, pin)
    &&& whole == joined(wholes(parts)) + done(
        leftover_plan(old, child_keys(old), recipe_keys(recipes), old.len() as int),
    ) + moves
}

/// Whether `parts` holds, for each child of the recipe and in the recipe's
/// order, what reconciling that child issued.
pub open spec fn children_traced(
    old: Seq<SnapshotView>,
    recipes: Seq<RecipeView>,
    new: Seq<SnapshotView>,
    parent: ElementId,
    pin: Option<ElementId>,
    parts: Seq<Trace>,
) -> bool
    decreases new, 0int,
{
    &&& parts.len() == new.len()
    &&& forall|i: int|
        0 <= i < new.len() ==> traced(
            counterpart(old, recipes, i),
            recipes[i],
            #[trigger] new[i],
            parent,
            pin,
            parts[i],
        )
}

/// Whether `whole` is what reconciling `old` with `recipe` issued, where it
/// succeeded and left `new`: there is a way to take it apart that `traced`
/// accepts.
pub open spec fn issued_by(
    old: Option<SnapshotView>,
    recipe: RecipeView,
    new: SnapshotView,
    parent: ElementId,
    pin: Option<ElementId>,
    whole: Seq<Issued>,
) -> bool {
    exists|trace: Trace| trace.whole == whole && #[trigger] traced(old, recipe, new, parent, pin, trace)
}

/// Reconciles the subtree that `previous` records with `recipe`; see
/// `ElementWithChildrenSnapshot::rebuild`.
pub fn rebuild_from<B: DomBackend>(
    doc: &mut LiveDocument<B>,
    previous: ElementWithChildrenSnapshot,
    current_root: ElementId,
    recipe: &ElementWithChildrenRecipe,
    do_not_move: Option<ElementId>,
) -> (r: RuntimeResult<ElementWithChildrenSnapshot>)
    ensures
        pass(old(doc).issued(), final(doc).issued(), do_not_move, r is Ok),
        r matches Ok(new) ==> reconciled(Some(previous@), recipe@, new@),
        r matches Ok(new) ==> issued_by(
            Some(previous@),
            recipe@,
            new@,
            current_root,
            do_not_move,
            since(old(doc).issued(), final(doc).issued()),
        ),
        r matches Err(e) ==> (e is Mutation || e is UndoingTrailingMutations || e is Reparenting) && (
        e.is_mismatch_on_removal() <==> removal_failed(since(old(doc).issued(), final(doc).issued())))
            && (e is Reparenting <==> move_failed(since(old(doc).issued(), final(doc).issued()))),
        previous@.mirrors(recipe@) ==> final(doc).issued() == old(doc).issued() && r is Ok,
    decreases recipe, 2int,
{
    let ghost before = doc.issued();
    let ghost was = previous@;
    proof {
        previous.lemma_view();
        recipe.lemma_view();
    }
    if !(previous.element.create.mutation == recipe.element.create) {
        let r = teardown(doc, &previous);
        proof {
            lemma_teardown_moves_nothing(was);
            lemma_plan_is_step(teardown_plan(was), before, doc.issued(), r is Ok);
            lemma_step_is_pass(before, doc.issued(), r is Ok, do_not_move);
        }
        match r {
            Ok(()) => {},
            Err(e) => {
                return Err(e);
            },
        }
        let ghost removed_at = doc.issued();
        let r = build_new_child(doc, current_root, recipe);
        proof {
            lemma_step_is_pass(removed_at, doc.issued(), r is Ok, do_not_move);
            lemma_pass_then(before, removed_at, doc.issued(), do_not_move, r is Ok);
            if r is Ok {
                lemma_completed_then(
                    teardown_plan(was),
                    build_plan(r->Ok_0@, current_root),
                    before,
                    removed_at,
                    doc.issued(),
                );
                let trace = Trace {
                    whole: since(before, doc.issued()),
                    parts: Seq::empty(),
                    moves: Seq::empty(),
                };
                assert(traced(Some(was), recipe@, r->Ok_0@, current_root, do_not_move, trace));
            }
        }
        return r;
    }
    let ElementWithChildrenSnapshot { element, children } = previous;
    let ElementSnapshot { key: _, create, modify, finish: _ } = element;
    let root_element = create.log.element_id;
    let r = sync_modify(doc, root_element, modify, &recipe.element.modify);
    proof {
        lemma_sync_moves_nothing(was.modify, recipe@.modify, root_element);
        lemma_plan_is_step(
            sync_plan(was.modify, recipe@.modify, root_element),
            before,
            doc.issued(),
            r is Ok,
        );
        lemma_step_is_pass(before, doc.issued(), r is Ok, do_not_move);
        if was.mirrors(recipe@) {
            lemma_sync_of_same(was.modify, recipe@.modify, root_element);
        }
    }
    let modify = match r {
        Ok(modify) => modify,
        Err(e) => {
            return Err(e);
        },
    };
    let ghost synced_at = doc.issued();
    let r = rebuild_children(doc, root_element, children, &recipe.children, do_not_move);
    proof {
        lemma_pass_then(before, synced_at, doc.issued(), do_not_move, r is Ok);
    }
    let children = match r {
        Ok(children) => children,
        Err(e) => {
            return Err(e);
        },
    };
    let finish = SnapshotEntryV2 {
        mutation: ElementFinishMutation {  },
        log: ElementFinishMutationLog { element_id: root_element },
    };
    let new = ElementWithChildrenSnapshot {
        element: ElementSnapshot { key: recipe.element.key, create, modify, finish },
        children,
    };
    proof {
        new.lemma_view();
        lemma_synced_mirrors(was.modify, recipe.element.modify@, new@.modify);
        lemma_kept_node_is_reconciled(was, recipe@, new@);
        lemma_kept_node_is_traced(
            was,
            recipe@,
            new@,
            current_root,
            do_not_move,
            before,
            synced_at,
            doc.issued(),
        );
    }
    Ok(new)
}

/// What reconciling a node that is kept issued is traced: the bringing up to
/// date of its mutations, then the work on its children.
proof fn lemma_kept_node_is_traced(
    old: SnapshotView,
    recipe: RecipeView,
    new: SnapshotView,
    parent: ElementId,
    pin: Option<ElementId>,
    before: Seq<Issued>,
    middle: Seq<Issued>,
    after: Seq<Issued>,
)
    requires
        old.kind() == recipe.kind,
        new.handle() == old.handle(),
        before.is_prefix_of(middle),
        middle.is_prefix_of(after),
        completed(sync_plan(old.modify, recipe.modify, old.handle()), since(before, middle)),
        exists|parts: Seq<Trace>, moves: Seq<Issued>|
            children_worked(
                old.children,
                recipe.children,
                new.children,
                old.handle(),
                pin,
                parts,
                moves,
                since(middle, after),
            ),
    ensures
        issued_by(Some(old), recipe, new, parent, pin, since(before, after)),
{
    let plan = sync_plan(old.modify, recipe.modify, old.handle());
    let whole = since(before, after);
    assert(whole.take(plan.len() as int) =~= since(before, middle));
    assert(whole.skip(plan.len() as int) =~= since(middle, after));
    lemma_completed_is_done(plan, since(before, middle));
    let (parts, moves) = choose|parts: Seq<Trace>, moves: Seq<Issued>|
        children_worked(
            old.children,
            recipe.children,
            new.children,
            old.handle(),
            pin,
            parts,
            moves,
            since(middle, after),
        );
    let trace = Trace { whole, parts, moves };
    assert(traced(Some(old), recipe, new, parent, pin, trace));
}

/// What reconciling leaves of a node that is kept is reconciled with it.
proof fn lemma_kept_node_is_reconciled(old: SnapshotView, recipe: RecipeView, new: SnapshotView)
    requires
        old.kind() == recipe.kind,
        new.key == recipe.key,
        new.create == old.create,
        new.finish.log.element_id == old.handle(),
        modify_synced(old.modify, recipe.modify, new.modify),
        entry_views(new.modify) == recipe.modify,
        children_reconciled(old.children, recipe.children, new.children),
    ensures
        reconciled(Some(old), recipe, new),
{
    assert(new.mirrors(recipe)) by {
        assert forall|i: int| 0 <= i < new.children.len() implies (#[trigger] new.children[i]).mirrors(
            recipe.children[i],
        ) by {
            assert(reconciled(
                counterpart(old.children, recipe.children, i),
                recipe.children[i],
                new.children[i],
            ));
        }
    }
    if old.well_formed() {
        assert(new.well_formed()) by {
            assert forall|i: int| 0 <= i < new.modify.len() implies (#[trigger] new.modify[i]).log.answers(
            &new.modify[i].mutation) by {
                match partner(entry_views(old.modify), recipe.modify, i) {
                    Some(o) => {
                        assert(partners(entry_views(old.modify), recipe.modify, o, i));
                        assert(new.modify[i] == old.modify[o]);
                    },
                    None => {},
                }
            }
            assert forall|i: int| 0 <= i < new.children.len() implies (
            #[trigger] new.children[i]).well_formed() by {
                let keys = child_keys(old.children);
                let wanted = recipe_keys(recipe.children);
                assert(reconciled(
                    counterpart(old.children, recipe.children, i),
                    recipe.children[i],
                    new.children[i],
                ));
                match partner(keys, wanted, i) {
                    Some(o) => {
                        assert(partners(keys, wanted, o, i));
                        assert(old.children[o].well_formed());
                        assert(old.children[o].child_key() == recipe.children[i].child_key());
                    },
                    None => {},
                }
            }
        }
        if old.mirrors(recipe) {
            lemma_sync_of_same(old.modify, recipe.modify, old.handle());
            assert(new.modify =~= old.modify) by {
                assert forall|i: int| 0 <= i < new.modify.len() implies new.modify[i]
                    == old.modify[i] by {
                    assert(partner(entry_views(old.modify), recipe.modify, i) == Some(i));
                }
            }
            assert(new.children =~= old.children) by {
                assert forall|i: int| 0 <= i < new.children.len() implies new.children[i]
                    == old.children[i] by {
                    lemma_mirrors_pair_in_place(old.children, recipe.children, i);
                    assert(reconciled(
                        counterpart(old.children, recipe.children, i),
                        recipe.children[i],
                        new.children[i],
                    ));
                    assert(old.children[i].mirrors(recipe.children[i]));
                    assert(old.children[i].well_formed());
                }
            }
            assert(new.finish.log == old.finish.log);
            assert(new.finish.mutation == old.finish.mutation);
            assert(new.finish == old.finish);
            assert(new == old);
        }
    }
}

impl ElementWithChildrenSnapshot {
    /// Reconciles the subtree that this snapshot records, which hangs under
    /// `current_root`, with `recipe`, and answers the snapshot of what the live
    /// document then holds.
    ///
    /// A node of another kind than the recipe asks for is taken out of the
    /// live document, subtree and all, and the recipe is built in its place.
    /// A node of the same kind is kept: the mutations it carries are brought
    /// up to date, its children are reconciled with the children of the
    /// recipe, and it is marked as finished again.
    ///
    /// Whatever the live document answers, the journal only grows, no move
    /// relocates `do_not_move`, and the pass succeeds exactly when every
    /// operation it issued went through; what it then has issued is exactly
    /// what `traced` lays down. A snapshot that already records what the
    /// recipe asks for is handed back as it is, and nothing is issued.
    pub fn rebuild<B: DomBackend>(
        self,
        doc: &mut LiveDocument<B>,
        current_root: ElementId,
        recipe: ElementWithChildrenRecipe,
        do_not_move: Option<ElementId>,
    ) -> (r: RuntimeResult<Self>)
        ensures
            pass(old(doc).issued(), final(doc).issued(), do_not_move, r is Ok),
            r matches Ok(new) ==> reconciled(Some(self@), recipe@, new@),
            r matches Ok(new) ==> issued_by(
                Some(self@),
                recipe@,
                new@,
                current_root,
                do_not_move,
                since(old(doc).issued(), final(doc).issued()),
            ),
            r matches Err(e) ==> (e is Mutation || e is UndoingTrailingMutations || e is Reparenting)
                && (e.is_mismatch_on_removal() <==> removal_failed(
                since(old(doc).issued(), final(doc).issued()),
            )) && (e is Reparenting <==> move_failed(
                since(old(doc).issued(), final(doc).issued()),
            )),
            self@.mirrors(recipe@) ==> final(doc).issued() == old(doc).issued() && r is Ok,
    {
        rebuild_from(doc, self, current_root, &recipe, do_not_move)
    }
}

} // verus!
