use super::slots::into_slots;
use super::ElementWithChildrenSnapshot;
use crate::data::ElementId;
use crate::raw_operations;
use crate::raw_operations::backend::DomBackend;
use crate::raw_operations::journal::{
    move_failed, removal_failed, lemma_pass_nothing, lemma_pass_one, lemma_pass_then, pass, since, Issued,
    Operation,
};
use crate::raw_operations::LiveDocument;
use crate::{RuntimeError, RuntimeResult};
use vstd::prelude::*;

verus! {

/// Children of one node, each with the place it is to have, in the order in
/// which they stand in the live document.
pub struct SortableChildren {
    pub do_not_move: Option<ElementId>,
    pub children: Vec<(usize, ElementWithChildrenSnapshot)>,
}

/// The places that the children are to have.
pub open spec fn targets(children: Seq<(usize, ElementWithChildrenSnapshot)>) -> Seq<usize> {
    children.map_values(|child: (usize, ElementWithChildrenSnapshot)| child.0)
}

/// Whether the children already stand in the order of their targets.
pub open spec fn in_order(targets: Seq<usize>) -> bool {
    forall|k: int, l: int| 0 <= k < l < targets.len() ==> targets[k] <= targets[l]
}

/// Whether `order` arranges all the children by their targets: it names each
/// child once, a child with a smaller target stands before one with a larger
/// target, and children with the same target keep the order they had.
pub open spec fn arranges(order: Seq<usize>, targets: Seq<usize>) -> bool {
    &&& order.len() == targets.len()
    &&& forall|k: int| 0 <= k < order.len() ==> #[trigger] order[k] < targets.len()
    &&& forall|k: int, l: int|
        0 <= k < l < order.len() ==> targets[order[k] as int] < targets[order[l] as int] || (
        targets[order[k] as int] == targets[order[l] as int] && order[k] < order[l])
}

/// How many of `targets` are larger than `than`.
pub open spec fn larger(targets: Seq<usize>, than: usize) -> nat
    decreases targets.len(),
{
    if targets.len() == 0 {
        0
    } else {
        larger(targets.drop_last(), than) + if targets.last() > than {
            1nat
        } else {
            0nat
        }
    }
}

/// How many pairs of children stand in the wrong order: the one that stands
/// first has the larger target.
pub open spec fn inversions(targets: Seq<usize>) -> nat
    decreases targets.len(),
{
    if targets.len() == 0 {
        0
    } else {
        inversions(targets.drop_last()) + larger(targets.drop_last(), targets.last())
    }
}

/// The targets with the neighbours at `j` and `j + 1` exchanged.
pub open spec fn exchanged(targets: Seq<usize>, j: int) -> Seq<usize> {
    targets.update(j, targets[j + 1]).update(j + 1, targets[j])
}

/// Exchanging two neighbours does not change how many targets are larger than
/// a given one.
proof fn lemma_larger_after_exchange(targets: Seq<usize>, j: int, than: usize)
    requires
        0 <= j,
        j + 1 < targets.len(),
    ensures
        larger(exchanged(targets, j), than) == larger(targets, than),
    decreases targets.len(),
{
    let after = exchanged(targets, j);
    if j + 1 == targets.len() - 1 {
        let rest = targets.drop_last().drop_last();
        assert(after.drop_last().drop_last() =~= rest);
        assert(after.drop_last().last() == targets.last());
        assert(after.last() == targets.drop_last().last());
        assert(larger(targets, than) == larger(targets.drop_last(), than) + if targets.last()
            > than {
            1nat
        } else {
            0nat
        });
        assert(larger(targets.drop_last(), than) == larger(rest, than) + if targets.drop_last().last()
            > than {
            1nat
        } else {
            0nat
        });
        assert(larger(after, than) == larger(after.drop_last(), than) + if after.last() > than {
            1nat
        } else {
            0nat
        });
        assert(larger(after.drop_last(), than) == larger(rest, than) + if after.drop_last().last()
            > than {
            1nat
        } else {
            0nat
        });
    } else {
        assert(after.drop_last() =~= exchanged(targets.drop_last(), j));
        assert(after.last() == targets.last());
        lemma_larger_after_exchange(targets.drop_last(), j, than);
    }
}

/// Exchanging two neighbours that stand in the wrong order leaves one pair
/// less in the wrong order.
proof fn lemma_inversions_after_exchange(targets: Seq<usize>, j: int)
    requires
        0 <= j,
        j + 1 < targets.len(),
        targets[j] > targets[j + 1],
    ensures
        inversions(exchanged(targets, j)) + 1 == inversions(targets),
    decreases targets.len(),
{
    let after = exchanged(targets, j);
    if j + 1 == targets.len() - 1 {
        let rest = targets.drop_last().drop_last();
        let first = targets[j];
        let second = targets[j + 1];
        assert(after.drop_last().drop_last() =~= rest);
        assert(targets.drop_last().last() == first);
        assert(targets.last() == second);
        assert(after.drop_last().last() == second);
        assert(after.last() == first);
        assert(inversions(targets) == inversions(targets.drop_last()) + larger(
            targets.drop_last(),
            second,
        ));
        assert(inversions(targets.drop_last()) == inversions(rest) + larger(rest, first));
        assert(larger(targets.drop_last(), second) == larger(rest, second) + 1);
        assert(inversions(after) == inversions(after.drop_last()) + larger(after.drop_last(), first));
        assert(inversions(after.drop_last()) == inversions(rest) + larger(rest, second));
        assert(larger(after.drop_last(), first) == larger(rest, first));
    } else {
        assert(after.drop_last() =~= exchanged(targets.drop_last(), j));
        assert(after.last() == targets.last());
        lemma_inversions_after_exchange(targets.drop_last(), j);
        lemma_larger_after_exchange(targets.drop_last(), j, targets.last());
    }
}

/// The targets of the children in the order that `order` names.
pub open spec fn in_the_order(order: Seq<usize>, targets: Seq<usize>) -> Seq<usize> {
    Seq::new(order.len(), |k: int| targets[order[k] as int])
}

/// Whether every operation of `trace` moves a node among its siblings.
pub open spec fn only_moves(trace: Seq<Issued>) -> bool {
    forall|i: int| 0 <= i < trace.len() ==> (#[trigger] trace[i]).operation.is_move()
}

/// Whether `order` names each child once and children with the same target
/// stand in the order they had.
spec fn shuffles(order: Seq<usize>, targets: Seq<usize>) -> bool {
    &&& order.len() == targets.len()
    &&& forall|k: int| 0 <= k < order.len() ==> #[trigger] order[k] < targets.len()
    &&& forall|k: int, l: int| 0 <= k < l < order.len() ==> order[k] != order[l]
    &&& forall|k: int, l: int|
        0 <= k < l < order.len() && targets[order[k] as int] == targets[order[l] as int]
            ==> order[k] < order[l]
}

/// Whether the children from `from` on stand where they belong: in the order of
/// their targets, and behind everything that stands before `from`.
spec fn settled(order: Seq<usize>, targets: Seq<usize>, from: int) -> bool {
    forall|k: int, l: int|
        0 <= k < l < order.len() && from <= l ==> targets[order[k] as int] <= targets[order[l] as int]
}

/// The move that exchanges the neighbours `left` and `right`: the right one is
/// put before the left one, or, where the right one is pinned, the left one is
/// put behind it.
pub open spec fn exchange(left: ElementId, right: ElementId, do_not_move: Option<ElementId>) -> Operation {
    if do_not_move == Some(right) {
        Operation::MoveAfter { moved: left, anchor: right }
    } else {
        Operation::MoveBefore { moved: right, anchor: left }
    }
}

/// Exchanges two neighbours in the live document: the right one is put before
/// the left one, or, where the right one is pinned, the left one is put behind
/// it. The pinned node is never the one that is relocated. Two children that
/// are one and the same node need no move, and none is issued.
///
/// Exactly the move `exchange` is issued, and the exchange succeeds exactly
/// when the move goes through; where it does not, the error is `Reparenting`.
fn swap<B: DomBackend>(
    doc: &mut LiveDocument<B>,
    left: ElementId,
    right: ElementId,
    do_not_move: Option<ElementId>,
) -> (r: RuntimeResult<()>)
    ensures
        left == right ==> final(doc).issued() == old(doc).issued() && r is Ok,
        left != right ==> final(doc).issued() == old(doc).issued().push(
            Issued { operation: exchange(left, right, do_not_move), succeeded: r is Ok },
        ),
        pass(old(doc).issued(), final(doc).issued(), do_not_move, r is Ok),
        only_moves(since(old(doc).issued(), final(doc).issued())),
        since(old(doc).issued(), final(doc).issued()).len() <= 1,
        r matches Err(e) ==> e is Reparenting && move_failed(
            since(old(doc).issued(), final(doc).issued()),
        ),
{
    let ghost before = doc.issued();
    if left == right {
        proof {
            lemma_pass_nothing(before, do_not_move);
        }
        return Ok(());
    }
    let right_is_pinned = match do_not_move {
        Some(pinned) => pinned == right,
        None => false,
    };
    let r = if right_is_pinned {
        raw_operations::swap_siblings_behind(doc, right, left)
    } else {
        raw_operations::swap_siblings(doc, left, right)
    };
    proof {
        lemma_pass_one(before, doc.issued().last(), do_not_move);
    }
    match r {
        Ok(()) => Ok(()),
        Err(source) => Err(RuntimeError::Reparenting { source }),
    }
}

/// Sorts the children by their targets with exchanges of neighbours, and
/// answers the order that results: for each place, the child that stands there
/// in the end.
///
/// Yes, this is bubble sort: each exchange is one move in the live document.
/// It stops as soon as one sweep exchanges nothing.
fn reorder_children<B: DomBackend>(
    doc: &mut LiveDocument<B>,
    children: &Vec<(usize, ElementWithChildrenSnapshot)>,
    do_not_move: Option<ElementId>,
) -> (r: RuntimeResult<Vec<usize>>)
    ensures
        pass(old(doc).issued(), final(doc).issued(), do_not_move, r is Ok),
        only_moves(since(old(doc).issued(), final(doc).issued())),
        r matches Ok(order) ==> arranges(order@, targets(children@)),
        r matches Err(e) ==> e is Reparenting && move_failed(
            since(old(doc).issued(), final(doc).issued()),
        ),
        in_order(targets(children@)) ==> final(doc).issued() == old(doc).issued() && (
        r matches Ok(order) && forall|k: int| 0 <= k < order@.len() ==> #[trigger] order@[k] == k),
        since(old(doc).issued(), final(doc).issued()).len() <= inversions(targets(children@)),
{
    let ghost before = doc.issued();
    let ghost tags = targets(children@);
    let len = children.len();
    let mut order: Vec<usize> = Vec::new();
    let mut filled: usize = 0;
    while filled < len
        invariant
            filled <= len,
            order@.len() == filled,
            forall|k: int| 0 <= k < filled ==> #[trigger] order@[k] == k,
        decreases len - filled,
    {
        order.push(filled);
        filled = filled + 1;
    }
    proof {
        lemma_pass_nothing(before, do_not_move);
        assert(in_the_order(order@, tags) =~= tags);
    }
    let mut i: usize = len;
    let mut done = false;
    while i > 0 && !done
        invariant
            len == children@.len(),
            tags == targets(children@),
            before == old(doc).issued(),
            i <= len,
            shuffles(order@, tags),
            settled(order@, tags, i as int),
            done ==> settled(order@, tags, 0),
            pass(before, doc.issued(), do_not_move, true),
            only_moves(since(before, doc.issued())),
            in_order(tags) ==> doc.issued() == before && forall|k: int|
                0 <= k < len ==> #[trigger] order@[k] == k,
            since(before, doc.issued()).len() + inversions(in_the_order(order@, tags))
                <= inversions(tags),
        decreases i + if done { 0int } else { 1int },
    {
        i = i - 1;
        let mut has_swapped = false;
        let mut j: usize = 0;
        while j < i
            invariant
                len == children@.len(),
                tags == targets(children@),
                before == old(doc).issued(),
                j <= i < len,
                shuffles(order@, tags),
                settled(order@, tags, i as int + 1),
                forall|k: int| 0 <= k < j ==> tags[#[trigger] order@[k] as int] <= tags[order@[j as int] as int],
                !has_swapped ==> forall|k: int, l: int|
                    0 <= k < l <= j ==> tags[order@[k] as int] <= tags[order@[l] as int],
                pass(before, doc.issued(), do_not_move, true),
                only_moves(since(before, doc.issued())),
                in_order(tags) ==> doc.issued() == before && forall|k: int|
                    0 <= k < len ==> #[trigger] order@[k] == k,
                since(before, doc.issued()).len() + inversions(in_the_order(order@, tags))
                    <= inversions(tags),
            decreases i - j,
        {
            let left = order[j];
            let right = order[j + 1];
            if children[left].0 > children[right].0 {
                let ghost journal = doc.issued();
                let ghost earlier = order@;
                let r = swap(
                    doc,
                    children[left].1.element.create.log.element_id,
                    children[right].1.element.create.log.element_id,
                    do_not_move,
                );
                proof {
                    lemma_pass_then(before, journal, doc.issued(), do_not_move, r is Ok);
                    let head = since(before, journal);
                    let tail = since(journal, doc.issued());
                    let whole = since(before, doc.issued());
                    assert forall|k: int| 0 <= k < whole.len() implies (
                    #[trigger] whole[k]).operation.is_move() by {
                        if k < head.len() {
                            assert(whole[k] == head[k]);
                        } else {
                            assert(whole[k] == tail[k - head.len()]);
                        }
                    }
                    assert(tags[left as int] > tags[right as int]);
                    assert(tail.len() <= 1);
                    lemma_inversions_after_exchange(in_the_order(earlier, tags), j as int);
                }
                match r {
                    Ok(()) => {},
                    Err(e) => {
                        return Err(e);
                    },
                }
                order[j] = right;
                order[j + 1] = left;
                has_swapped = true;
                proof {
                    assert(in_the_order(order@, tags) =~= exchanged(
                        in_the_order(earlier, tags),
                        j as int,
                    ));
                    assert forall|k: int, l: int|
                        0 <= k < l < order@.len() && i as int + 1 <= l implies tags[order@[k] as int]
                        <= tags[order@[l] as int] by {
                        assert(order@[l] == earlier[l]);
                        if k == j {
                            assert(tags[earlier[j + 1] as int] <= tags[earlier[l] as int]);
                        } else if k == j + 1 {
                            assert(tags[earlier[j as int] as int] <= tags[earlier[l] as int]);
                        } else {
                            assert(order@[k] == earlier[k]);
                        }
                    }
                    assert forall|k: int, l: int| 0 <= k < l < order@.len() implies order@[k]
                        != order@[l] by {
                        let a = if k == j { j + 1 } else if k == j + 1 { j as int } else { k };
                        let b = if l == j { j + 1 } else if l == j + 1 { j as int } else { l };
                        assert(order@[k] == earlier[a]);
                        assert(order@[l] == earlier[b]);
                        if a < b {
                            assert(earlier[a] != earlier[b]);
                        } else {
                            assert(earlier[b] != earlier[a]);
                        }
                    }
                    assert forall|k: int, l: int|
                        0 <= k < l < order@.len() && tags[order@[k] as int] == tags[order@[l] as int]
                        implies order@[k] < order@[l] by {
                        let a = if k == j { j + 1 } else if k == j + 1 { j as int } else { k };
                        let b = if l == j { j + 1 } else if l == j + 1 { j as int } else { l };
                        assert(order@[k] == earlier[a]);
                        assert(order@[l] == earlier[b]);
                        if !(k == j && l == j + 1) {
                            assert(a < b);
                        }
                    }
                    assert forall|k: int| 0 <= k < j + 1 implies tags[#[trigger] order@[k] as int]
                        <= tags[order@[j + 1] as int] by {
                        if k < j {
                            assert(order@[k] == earlier[k]);
                            assert(tags[earlier[k] as int] <= tags[earlier[j as int] as int]);
                        }
                    }
                }
            } else {
                proof {
                    assert forall|k: int| 0 <= k < j + 1 implies tags[#[trigger] order@[k] as int]
                        <= tags[order@[j + 1] as int] by {
                        if k < j {
                            assert(tags[order@[k] as int] <= tags[order@[j as int] as int]);
                        }
                    }
                    if !has_swapped {
                        assert forall|k: int, l: int| 0 <= k < l <= j + 1 implies tags[order@[k] as int]
                            <= tags[order@[l] as int] by {
                            if l == j + 1 && k < j {
                                assert(tags[order@[k] as int] <= tags[order@[j as int] as int]);
                            }
                        }
                    }
                }
            }
            j = j + 1;
        }
        proof {
            assert forall|k: int, l: int|
                0 <= k < l < order@.len() && i as int <= l implies tags[order@[k] as int]
                <= tags[order@[l] as int] by {
                if l == i {
                    assert(tags[order@[k] as int] <= tags[order@[i as int] as int]);
                }
            }
            if !has_swapped {
                assert forall|k: int, l: int| 0 <= k < l < order@.len() implies tags[order@[k] as int]
                    <= tags[order@[l] as int] by {}
            }
        }
        if !has_swapped {
            done = true;
        }
    }
    proof {
        assert(settled(order@, tags, 0));
        assert forall|k: int, l: int| 0 <= k < l < order@.len() implies tags[order@[k] as int]
            < tags[order@[l] as int] || (tags[order@[k] as int] == tags[order@[l] as int]
            && order@[k] < order@[l]) by {
            assert(tags[order@[k] as int] <= tags[order@[l] as int]);
        }
    }
    Ok(order)
}

/// Hands the children out in the order that `order` names.
fn arrange(children: Vec<(usize, ElementWithChildrenSnapshot)>, order: &Vec<usize>) -> (arranged: Vec<
    ElementWithChildrenSnapshot,
>)
    requires
        arranges(order@, targets(children@)),
    ensures
        arranged@.len() == children@.len(),
        forall|k: int|
            0 <= k < arranged@.len() ==> #[trigger] arranged@[k] == children@[order@[k] as int].1,
{
    let ghost all = children@;
    let mut slots = into_slots(children);
    let mut arranged: Vec<ElementWithChildrenSnapshot> = Vec::new();
    let mut k: usize = 0;
    while k < order.len()
        invariant
            k <= order@.len(),
            arranged@.len() == k,
            slots@.len() == all.len(),
            arranges(order@, targets(all)),
            forall|m: int| 0 <= m < k ==> #[trigger] arranged@[m] == all[order@[m] as int].1,
            forall|p: int|
                0 <= p < slots@.len() ==> #[trigger] slots@[p] == if exists|m: int|
                    0 <= m < k && order@[m] == p {
                    None
                } else {
                    Some(all[p])
                },
        decreases order@.len() - k,
    {
        let at = order[k];
        proof {
            if exists|m: int| 0 <= m < k && order@[m] == at {
                let m = choose|m: int| 0 <= m < k && order@[m] == at;
                assert(targets(all)[order@[m] as int] < targets(all)[order@[k as int] as int] || order@[m]
                    < order@[k as int]);
            }
        }
        let taken = slots[at].take();
        let child = taken.unwrap();
        arranged.push(child.1);
        proof {
            assert forall|p: int| 0 <= p < slots@.len() implies #[trigger] slots@[p] == if exists|
                m: int,
            |
                0 <= m < k + 1 && order@[m] == p {
                None
            } else {
                Some(all[p])
            } by {
                if p == at {
                    assert(order@[k as int] == p);
                }
            }
        }
        k = k + 1;
    }
    arranged
}

impl SortableChildren {
    /// Brings the children into the order of their targets, in the live
    /// document and in the list that is handed out.
    ///
    /// The list handed out holds every child once, sorted by target; children
    /// with the same target keep the order they had. In the live document only
    /// moves among siblings are issued, one for each exchange of neighbours,
    /// so at most as many as pairs of children stand in the wrong order, and
    /// none of them relocates the pinned node. Children that already stand
    /// in order are handed out as they are, and nothing is issued.
    ///
    /// Fails with `Reparenting` exactly when a move fails.
    pub fn ordered<B: DomBackend>(self, doc: &mut LiveDocument<B>) -> (r: RuntimeResult<
        Vec<ElementWithChildrenSnapshot>,
    >)
        ensures
            pass(old(doc).issued(), final(doc).issued(), self.do_not_move, r is Ok),
            only_moves(since(old(doc).issued(), final(doc).issued())),
            r matches Ok(arranged) ==> exists|order: Seq<usize>|
                {
                    &&& arranges(order, targets(self.children@))
                    &&& arranged@.len() == order.len()
                    &&& forall|k: int|
                        0 <= k < arranged@.len() ==> #[trigger] arranged@[k]
                            == self.children@[order[k] as int].1
                },
            r matches Err(e) ==> e is Reparenting && !removal_failed(
                since(old(doc).issued(), final(doc).issued()),
            ) && move_failed(since(old(doc).issued(), final(doc).issued())),
            in_order(targets(self.children@)) ==> final(doc).issued() == old(doc).issued() && (
            r matches Ok(arranged) && arranged@.len() == self.children@.len() && forall|k: int|
                0 <= k < arranged@.len() ==> #[trigger] arranged@[k] == self.children@[k].1),
            since(old(doc).issued(), final(doc).issued()).len() <= inversions(
                targets(self.children@),
            ),
    {
        let SortableChildren { do_not_move, children } = self;
        match reorder_children(doc, &children, do_not_move) {
            Err(e) => Err(e),
            Ok(order) => {
                let arranged = arrange(children, &order);
                Ok(arranged)
            },
        }
    }
}

/// Whether each value is smaller than the next.
spec fn climbs(values: Seq<int>) -> bool {
    forall|k: int, l: int| 0 <= k < l < values.len() ==> values[k] < values[l]
}

/// In a climbing sequence of natural numbers, no value is below its place.
proof fn lemma_climb_from_below(values: Seq<int>, k: int)
    requires
        climbs(values),
        0 <= k < values.len(),
        values[0] >= 0,
    ensures
        values[k] >= k,
    decreases k,
{
    if k > 0 {
        lemma_climb_from_below(values, k - 1);
    }
}

/// In a climbing sequence of numbers below its length, no value is above its
/// place.
proof fn lemma_climb_from_above(values: Seq<int>, k: int)
    requires
        climbs(values),
        0 <= k < values.len(),
        values[values.len() - 1] < values.len(),
    ensures
        values[k] <= k,
    decreases values.len() - k,
{
    if k < values.len() - 1 {
        lemma_climb_from_above(values, k + 1);
    }
}

/// Whether one of the children is to have the place `place`.
pub open spec fn is_target(targets: Seq<usize>, place: int) -> bool {
    exists|p: int| 0 <= p < targets.len() && #[trigger] targets[p] == place
}

/// Where the targets are the places `0` to `count - 1`, each once, arranging
/// the children puts each at its target.
pub proof fn lemma_arranged_by_place(order: Seq<usize>, targets: Seq<usize>, count: int)
    requires
        0 <= count,
        arranges(order, targets),
        forall|p: int| 0 <= p < targets.len() ==> (#[trigger] targets[p]) < count,
        forall|p: int, q: int| 0 <= p < q < targets.len() ==> targets[p] != targets[q],
        forall|j: int| 0 <= j < count ==> #[trigger] is_target(targets, j),
    ensures
        targets.len() == count,
        forall|k: int| 0 <= k < count ==> targets[#[trigger] order[k] as int] == k,
{
    let places = Seq::new(targets.len(), |p: int| targets[p] as int);
    assert(places.no_duplicates());
    places.unique_seq_to_set();
    vstd::set_lib::lemma_int_range(0, count);
    assert(places.to_set() =~= vstd::set_lib::set_int_range(0, count)) by {
        assert forall|j: int| vstd::set_lib::set_int_range(0, count).contains(j) implies places.to_set().contains(
            j,
        ) by {
            assert(is_target(targets, j));
            let p = choose|p: int| 0 <= p < targets.len() && #[trigger] targets[p] == j;
            assert(places[p] == j);
        }
        assert forall|j: int| places.to_set().contains(j) implies vstd::set_lib::set_int_range(
            0,
            count,
        ).contains(j) by {
            let p = choose|p: int| 0 <= p < places.len() && places[p] == j;
            assert(targets[p] < count);
        }
    }
    assert(targets.len() == count);
    let values = Seq::new(order.len(), |k: int| targets[order[k] as int] as int);
    assert(climbs(values)) by {
        assert forall|k: int, l: int| 0 <= k < l < values.len() implies values[k] < values[l] by {
            if order[k] < order[l] {
                assert(targets[order[k] as int] != targets[order[l] as int]);
            } else if order[l] < order[k] {
                assert(targets[order[l] as int] != targets[order[k] as int]);
            }
        }
    }
    assert forall|k: int| 0 <= k < count implies targets[#[trigger] order[k] as int] == k by {
        assert(values[count - 1] == targets[order[count - 1] as int]);
        assert(values[0] == targets[order[0] as int]);
        lemma_climb_from_below(values, k);
        lemma_climb_from_above(values, k);
        assert(values[k] == targets[order[k] as int]);
    }
}

} // verus!
