use crate::data::ElementId;
use vstd::prelude::*;

verus! {

/// One operation on the live document, with what it was asked to do.
pub enum Operation {
    CreateElement { kind: Seq<char> },
    InsertElement { element: ElementId, to: ElementId },
    RemoveInPlace { element: ElementId },
    RemoveElement { from_parent: ElementId, element: ElementId },
    /// `moved` is put immediately before `anchor`.
    MoveBefore { moved: ElementId, anchor: ElementId },
    /// `moved` is put immediately after `anchor`.
    MoveAfter { moved: ElementId, anchor: ElementId },
    ReplaceElement { element: ElementId, with: ElementId },
    PickUpChildren { from: ElementId },
    PlaceChildren { to: ElementId, children: Seq<ElementId> },
    SetAttribute { element: ElementId, attribute: Seq<char>, value: Option<Seq<char>> },
    SetText { element: ElementId, text: Option<Seq<char>> },
    SetInputValue { element: ElementId, input: Seq<char> },
    AddEventListener { element: ElementId, name: Seq<char>, callback: u64 },
    RemoveEventListener { element: ElementId, name: Seq<char>, callback: u64 },
}

/// An operation that was issued, and whether it went through.
pub struct Issued {
    pub operation: Operation,
    pub succeeded: bool,
}

impl Operation {
    /// Whether the operation relocates `element` among its siblings.
    pub open spec fn relocates(self, element: ElementId) -> bool {
        match self {
            Operation::MoveBefore { moved, .. } => moved == element,
            Operation::MoveAfter { moved, .. } => moved == element,
            _ => false,
        }
    }

    /// Whether the operation moves a node among its siblings.
    pub open spec fn is_move(self) -> bool {
        self is MoveBefore || self is MoveAfter
    }

    /// Whether the operation writes the attribute `attribute` of `element`.
    pub open spec fn writes_attribute(self, element: ElementId, attribute: Seq<char>) -> bool {
        self matches Operation::SetAttribute { element: e, attribute: a, .. } && e == element && a
            == attribute
    }
}

/// Every operation of `trace` went through.
pub open spec fn all_succeeded(trace: Seq<Issued>) -> bool {
    forall|i: int| 0 <= i < trace.len() ==> (#[trigger] trace[i]).succeeded
}

/// No operation of `trace` relocates the pinned node.
pub open spec fn spares(trace: Seq<Issued>, pin: Option<ElementId>) -> bool {
    pin matches Some(pinned) ==> forall|i: int|
        0 <= i < trace.len() ==> !(#[trigger] trace[i]).operation.relocates(pinned)
}

/// What was issued after `before`, where `after` continues `before`.
pub open spec fn since(before: Seq<Issued>, after: Seq<Issued>) -> Seq<Issued> {
    after.skip(before.len() as int)
}

/// Whether the work that issued `trace` was given up at the first operation
/// that failed: the last operation failed, and every one before it went
/// through.
pub open spec fn stopped(trace: Seq<Issued>) -> bool {
    &&& trace.len() > 0
    &&& !trace.last().succeeded
    &&& all_succeeded(trace.drop_last())
}

/// Whether what was issued fits the outcome `ok`: work that succeeded issued
/// only operations that went through, and work that failed was given up at the
/// first operation that failed.
pub open spec fn settled(trace: Seq<Issued>, ok: bool) -> bool {
    if ok {
        all_succeeded(trace)
    } else {
        stopped(trace)
    }
}

/// How a journal may grow while the engine works with `pin` as the pinned node.
///
/// - Nothing that was issued is forgotten: `after` continues `before`.
/// - Nothing issued in between relocates the pinned node.
/// - `ok` says whether the work succeeded. It did exactly when every operation
///   issued in between went through; where one failed, it is the last one, and
///   nothing was issued after it.
pub open spec fn pass(before: Seq<Issued>, after: Seq<Issued>, pin: Option<ElementId>, ok: bool) -> bool {
    &&& before.is_prefix_of(after)
    &&& spares(since(before, after), pin)
    &&& settled(since(before, after), ok)
}

/// Work succeeded exactly when every operation it issued went through.
pub proof fn lemma_settled_tells(trace: Seq<Issued>, ok: bool)
    requires
        settled(trace, ok),
    ensures
        ok <==> all_succeeded(trace),
{
    if !ok {
        assert(!trace[trace.len() - 1].succeeded);
    }
}

/// What follows work that succeeded decides the outcome of both.
pub proof fn lemma_settled_then(first: Seq<Issued>, second: Seq<Issued>, ok: bool)
    requires
        all_succeeded(first),
        settled(second, ok),
    ensures
        settled(first + second, ok),
{
    let whole = first + second;
    if ok {
        assert forall|i: int| 0 <= i < whole.len() implies (#[trigger] whole[i]).succeeded by {
            if i < first.len() {
                assert(whole[i] == first[i]);
            } else {
                assert(whole[i] == second[i - first.len()]);
            }
        }
    } else {
        assert(whole.last() == second.last());
        let start = whole.drop_last();
        assert forall|i: int| 0 <= i < start.len() implies (#[trigger] start[i]).succeeded by {
            if i < first.len() {
                assert(start[i] == first[i]);
            } else {
                assert(start[i] == second.drop_last()[i - first.len()]);
            }
        }
    }
}

/// No operation of `trace` moves a node among its siblings.
pub open spec fn quiet(trace: Seq<Issued>) -> bool {
    forall|i: int| 0 <= i < trace.len() ==> !(#[trigger] trace[i]).operation.is_move()
}

/// How a journal may grow while one mutation is performed: as in a pass, and
/// without moving any node.
pub open spec fn step(before: Seq<Issued>, after: Seq<Issued>, ok: bool) -> bool {
    &&& before.is_prefix_of(after)
    &&& quiet(since(before, after))
    &&& settled(since(before, after), ok)
}

/// A step is a pass, whichever node is pinned.
pub proof fn lemma_step_is_pass(
    before: Seq<Issued>,
    after: Seq<Issued>,
    ok: bool,
    pin: Option<ElementId>,
)
    requires
        step(before, after, ok),
    ensures
        pass(before, after, pin, ok),
{
    let trace = since(before, after);
    if let Some(pinned) = pin {
        assert forall|i: int| 0 <= i < trace.len() implies !(#[trigger] trace[i]).operation.relocates(
            pinned,
        ) by {
            assert(!trace[i].operation.is_move());
        }
    }
}

/// A successful step followed by a step is a step.
pub proof fn lemma_step_then(before: Seq<Issued>, middle: Seq<Issued>, after: Seq<Issued>, ok: bool)
    requires
        step(before, middle, true),
        step(middle, after, ok),
    ensures
        step(before, after, ok),
        since(before, after) =~= since(before, middle) + since(middle, after),
{
    let first = since(before, middle);
    let second = since(middle, after);
    let whole = since(before, after);
    assert(before.is_prefix_of(after));
    assert(whole =~= first + second);
    assert forall|i: int| 0 <= i < whole.len() implies !(#[trigger] whole[i]).operation.is_move() by {
        if i < first.len() {
            assert(whole[i] == first[i]);
        } else {
            assert(whole[i] == second[i - first.len()]);
        }
    }
    lemma_settled_then(first, second, ok);
}

/// Issuing nothing is a successful step.
pub proof fn lemma_step_nothing(journal: Seq<Issued>)
    ensures
        step(journal, journal, true),
{
    assert(journal.is_prefix_of(journal));
}

/// Issuing one operation that moves nothing is a step, successful exactly when
/// the operation went through.
pub proof fn lemma_step_one(before: Seq<Issued>, entry: Issued)
    requires
        !entry.operation.is_move(),
    ensures
        step(before, before.push(entry), entry.succeeded),
{
    let after = before.push(entry);
    assert(before.is_prefix_of(after));
    assert(since(before, after) =~= seq![entry]);
    assert(seq![entry][0] == entry);
    assert(seq![entry].drop_last() =~= Seq::<Issued>::empty());
}

/// `trace` is the whole of `plan`, and each operation went through.
pub open spec fn completed(plan: Seq<Operation>, trace: Seq<Issued>) -> bool {
    &&& trace.len() == plan.len()
    &&& forall|i: int|
        0 <= i < trace.len() ==> #[trigger] trace[i] == Issued { operation: plan[i], succeeded: true }
}

/// `trace` is a start of `plan`: each operation but the last went through, the
/// last one failed, and nothing of the plan was issued after it.
pub open spec fn interrupted(plan: Seq<Operation>, trace: Seq<Issued>) -> bool {
    &&& 0 < trace.len() <= plan.len()
    &&& forall|i: int|
        0 <= i < trace.len() ==> #[trigger] trace[i] == Issued {
            operation: plan[i],
            succeeded: i < trace.len() - 1,
        }
}

/// Completing one plan and then another completes the two in a row.
pub proof fn lemma_completed_then(
    first: Seq<Operation>,
    second: Seq<Operation>,
    before: Seq<Issued>,
    middle: Seq<Issued>,
    after: Seq<Issued>,
)
    requires
        before.is_prefix_of(middle),
        middle.is_prefix_of(after),
        completed(first, since(before, middle)),
        completed(second, since(middle, after)),
    ensures
        before.is_prefix_of(after),
        completed(first + second, since(before, after)),
{
    let head = since(before, middle);
    let tail = since(middle, after);
    let whole = since(before, after);
    assert(whole =~= head + tail);
    assert forall|i: int| 0 <= i < whole.len() implies #[trigger] whole[i] == (Issued {
        operation: (first + second)[i],
        succeeded: true,
    }) by {
        if i < head.len() {
            assert(whole[i] == head[i]);
        } else {
            assert(whole[i] == tail[i - head.len()]);
        }
    }
}

/// Completing one plan and being interrupted in the next is being interrupted
/// in any plan that starts with the two in a row.
pub proof fn lemma_interrupted_then(
    first: Seq<Operation>,
    second: Seq<Operation>,
    plan: Seq<Operation>,
    before: Seq<Issued>,
    middle: Seq<Issued>,
    after: Seq<Issued>,
)
    requires
        before.is_prefix_of(middle),
        middle.is_prefix_of(after),
        completed(first, since(before, middle)),
        interrupted(second, since(middle, after)),
        (first + second).is_prefix_of(plan),
    ensures
        before.is_prefix_of(after),
        interrupted(plan, since(before, after)),
        since(before, after).len() > first.len(),
        since(before, after).last() == since(middle, after).last(),
{
    let head = since(before, middle);
    let tail = since(middle, after);
    let whole = since(before, after);
    assert(whole =~= head + tail);
    assert forall|i: int| 0 <= i < whole.len() implies #[trigger] whole[i] == (Issued {
        operation: plan[i],
        succeeded: i < whole.len() - 1,
    }) by {
        assert(plan[i] == (first + second)[i]);
        if i < head.len() {
            assert(whole[i] == head[i]);
        } else {
            assert(whole[i] == tail[i - head.len()]);
        }
    }
}

/// One operation that failed interrupts the plan that holds it alone.
pub proof fn lemma_interrupted_at_once(journal: Seq<Issued>, operation: Operation)
    ensures
        journal.is_prefix_of(journal.push(Issued { operation, succeeded: false })),
        interrupted(
            seq![operation],
            since(journal, journal.push(Issued { operation, succeeded: false })),
        ),
        completed(
            seq![operation],
            since(journal, journal.push(Issued { operation, succeeded: true })),
        ),
        journal.is_prefix_of(journal.push(Issued { operation, succeeded: true })),
{
    let failed = journal.push(Issued { operation, succeeded: false });
    let passed = journal.push(Issued { operation, succeeded: true });
    assert(journal.is_prefix_of(failed));
    assert(journal.is_prefix_of(passed));
    assert(since(journal, failed) =~= seq![Issued { operation, succeeded: false }]);
    assert(since(journal, passed) =~= seq![Issued { operation, succeeded: true }]);
}

/// Nothing issued completes the empty plan.
pub proof fn lemma_completed_nothing(journal: Seq<Issued>)
    ensures
        journal.is_prefix_of(journal),
        completed(Seq::<Operation>::empty(), since(journal, journal)),
{
    assert(journal.is_prefix_of(journal));
}

/// The trace of a plan that was completed: each operation, gone through.
pub open spec fn done(plan: Seq<Operation>) -> Seq<Issued> {
    plan.map_values(|operation: Operation| Issued { operation, succeeded: true })
}

/// A plan was completed exactly when what was issued is the plan, each
/// operation gone through.
pub proof fn lemma_completed_is_done(plan: Seq<Operation>, trace: Seq<Issued>)
    ensures
        completed(plan, trace) <==> trace == done(plan),
{
    if completed(plan, trace) {
        assert(trace =~= done(plan));
    }
}

/// The trace of two plans in a row is the trace of the first, then that of the
/// second.
pub proof fn lemma_done_both(first: Seq<Operation>, second: Seq<Operation>)
    ensures
        done(first + second) == done(first) + done(second),
{
    assert(done(first + second) =~= done(first) + done(second));
}

/// The traces of `parts`, one after the other.
pub open spec fn joined(parts: Seq<Seq<Issued>>) -> Seq<Issued>
    decreases parts.len(),
{
    if parts.len() == 0 {
        Seq::empty()
    } else {
        joined(parts.drop_last()) + parts.last()
    }
}

/// No operation of `plan` moves a node among its siblings.
pub open spec fn moves_nothing(plan: Seq<Operation>) -> bool {
    forall|i: int| 0 <= i < plan.len() ==> !(#[trigger] plan[i]).is_move()
}

/// Working through a plan that moves nothing is a step, successful exactly
/// when the plan was completed.
pub proof fn lemma_plan_is_step(plan: Seq<Operation>, before: Seq<Issued>, after: Seq<Issued>, ok: bool)
    requires
        before.is_prefix_of(after),
        moves_nothing(plan),
        ok ==> completed(plan, since(before, after)),
        !ok ==> interrupted(plan, since(before, after)),
    ensures
        step(before, after, ok),
{
    let trace = since(before, after);
    assert forall|i: int| 0 <= i < trace.len() implies !(#[trigger] trace[i]).operation.is_move() by {
        assert(!plan[i].is_move());
    }
    if !ok {
        let start = trace.drop_last();
        assert forall|i: int| 0 <= i < start.len() implies (#[trigger] start[i]).succeeded by {
            assert(start[i] == trace[i]);
        }
    }
}

/// Whether the last operation of `trace` is the removal of a node, and failed:
/// the live document reported that another node left it.
pub open spec fn removal_failed(trace: Seq<Issued>) -> bool {
    trace.len() > 0 && trace.last().operation is RemoveInPlace && !trace.last().succeeded
}

/// Whether the last operation of `trace` is a move of a node among its
/// siblings, and failed.
pub open spec fn move_failed(trace: Seq<Issued>) -> bool {
    trace.len() > 0 && trace.last().operation.is_move() && !trace.last().succeeded
}

/// What was issued last does not depend on where the counting starts.
pub proof fn lemma_removal_failed_since(before: Seq<Issued>, middle: Seq<Issued>, after: Seq<Issued>)
    requires
        before.is_prefix_of(middle),
        middle.is_prefix_of(after),
        since(middle, after).len() > 0,
    ensures
        removal_failed(since(before, after)) == removal_failed(since(middle, after)),
{
    assert(since(before, after).last() == since(middle, after).last());
}

/// A journal that did not grow is a successful pass.
pub proof fn lemma_pass_nothing(journal: Seq<Issued>, pin: Option<ElementId>)
    ensures
        pass(journal, journal, pin, true),
        since(journal, journal) =~= Seq::<Issued>::empty(),
{
    assert(journal.is_prefix_of(journal));
}

/// One operation that spares the pinned node is a pass, successful exactly
/// when the operation went through.
pub proof fn lemma_pass_one(before: Seq<Issued>, entry: Issued, pin: Option<ElementId>)
    requires
        pin matches Some(pinned) ==> !entry.operation.relocates(pinned),
    ensures
        pass(before, before.push(entry), pin, entry.succeeded),
        since(before, before.push(entry)) =~= seq![entry],
{
    let after = before.push(entry);
    assert(before.is_prefix_of(after));
    assert(since(before, after) =~= seq![entry]);
    assert(seq![entry][0] == entry);
    assert(seq![entry].drop_last() =~= Seq::<Issued>::empty());
}

/// A successful pass followed by a pass is a pass.
pub proof fn lemma_pass_then(
    before: Seq<Issued>,
    middle: Seq<Issued>,
    after: Seq<Issued>,
    pin: Option<ElementId>,
    ok: bool,
)
    requires
        pass(before, middle, pin, true),
        pass(middle, after, pin, ok),
    ensures
        pass(before, after, pin, ok),
        since(before, after) =~= since(before, middle) + since(middle, after),
{
    let first = since(before, middle);
    let second = since(middle, after);
    let whole = since(before, after);
    assert(before.is_prefix_of(after));
    assert(whole =~= first + second);
    assert forall|i: int| 0 <= i < whole.len() implies (first.len() <= i ==> whole[i] == second[i
        - first.len()]) && (i < first.len() ==> whole[i] == first[i]) by {}
    lemma_settled_then(first, second, ok);
    if let Some(pinned) = pin {
        assert forall|i: int| 0 <= i < whole.len() implies !(#[trigger] whole[i]).operation.relocates(
            pinned,
        ) by {
            if i < first.len() {
                assert(!first[i].operation.relocates(pinned));
            } else {
                assert(!second[i - first.len()].operation.relocates(pinned));
            }
        }
    }
}

} // verus!
