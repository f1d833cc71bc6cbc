//! What holds of a `ReusableIndexVec` over any number of changes.
//!
//! A history is a sequence of states of one container together with the
//! changes that lead from each state to the next. The lemmas below are stated
//! over the relations that `add`, `remove` and `get_mut` ensure, so they hold
//! of every run of those functions.

use vstd::prelude::*;

use crate::list::reusable_index_vec::{
    live_positions, next_stamp, ReusableIndexNode, ReusableIndexVec,
};
use crate::list::{CycleStamp, Index, ID};

verus! {

/// One change to a container, with the identifier that it returned or took.
pub enum Change<T> {
    /// `add` stored the value and returned the identifier.
    Added(T, ID),
    /// `remove` succeeded on the identifier.
    Removed(ID),
    /// The value was written through the reference that `get_mut` returned
    /// for the identifier.
    Replaced(ID, T),
}

/// Whether `change` leads from `pre` to `post`.
pub open spec fn step<T>(
    pre: ReusableIndexVec<T>,
    change: Change<T>,
    post: ReusableIndexVec<T>,
) -> bool {
    match change {
        Change::Added(value, id) => pre.added(value, &post, id),
        Change::Removed(id) => pre.contains(id) && pre.removed(id, &post),
        Change::Replaced(id, value) => pre.contains(id) && pre.replaced(id, value, &post),
    }
}

/// Whether `states` is a run of a container that starts well formed and goes
/// through `changes` one after the other.
pub open spec fn history<T>(states: Seq<ReusableIndexVec<T>>, changes: Seq<Change<T>>) -> bool {
    &&& states.len() == changes.len() + 1
    &&& states[0].well_formed()
    &&& forall|k: int|
        0 <= k < changes.len() ==> step(states[k], #[trigger] changes[k], states[k + 1])
}

/// Every change keeps the container well formed.
pub proof fn lemma_step_well_formed<T>(
    pre: ReusableIndexVec<T>,
    change: Change<T>,
    post: ReusableIndexVec<T>,
)
    requires
        pre.well_formed(),
        step(pre, change, post),
    ensures
        post.well_formed(),
{
    match change {
        Change::Added(value, id) => pre.lemma_added(value, &post, id),
        Change::Removed(id) => pre.lemma_removed(id, &post),
        Change::Replaced(id, value) => pre.lemma_replaced(id, value, &post),
    }
}

/// Every state of a history is well formed.
pub proof fn lemma_history_well_formed<T>(
    states: Seq<ReusableIndexVec<T>>,
    changes: Seq<Change<T>>,
    k: int,
)
    requires
        history(states, changes),
        0 <= k < states.len(),
    ensures
        states[k].well_formed(),
    decreases k,
{
    if k > 0 {
        lemma_history_well_formed(states, changes, k - 1);
        lemma_step_well_formed(states[k - 1], changes[k - 1], states[k]);
    }
}

/// As long as nothing is removed, the identifiers that `add` returns are
/// pairwise distinct.
pub proof fn lemma_added_identifiers_distinct<T>(
    states: Seq<ReusableIndexVec<T>>,
    changes: Seq<Change<T>>,
    i: int,
    j: int,
)
    requires
        history(states, changes),
        forall|k: int| 0 <= k < changes.len() ==> !(#[trigger] changes[k] is Removed),
        0 <= i < j < changes.len(),
        changes[i] is Added,
        changes[j] is Added,
    ensures
        changes[i]->Added_1 != changes[j]->Added_1,
{
    lemma_stays_while_not_removed(states, changes, i, j);
    lemma_history_well_formed(states, changes, j);
}

/// An identifier that `add` returned refers to an element in every later
/// state, up to the first removal.
proof fn lemma_stays_while_not_removed<T>(
    states: Seq<ReusableIndexVec<T>>,
    changes: Seq<Change<T>>,
    i: int,
    j: int,
)
    requires
        history(states, changes),
        0 <= i < j <= changes.len(),
        changes[i] is Added,
        forall|k: int| i < k < j ==> !(#[trigger] changes[k] is Removed),
    ensures
        states[j].contains(changes[i]->Added_1),
    decreases j,
{
    lemma_history_well_formed(states, changes, j - 1);
    if j > i + 1 {
        lemma_stays_while_not_removed(states, changes, i, j - 1);
    }
    if changes[j - 1] is Added {
        states[j - 1].lemma_added(
            changes[j - 1]->Added_0,
            &states[j],
            changes[j - 1]->Added_1,
        );
    }
}

/// Right after `add`, the returned identifier refers to the value that was
/// added, so `get` returns it.
pub proof fn lemma_get_after_add<T>(
    pre: ReusableIndexVec<T>,
    value: T,
    post: ReusableIndexVec<T>,
    id: ID,
)
    requires
        pre.well_formed(),
        pre.added(value, &post, id),
    ensures
        post.contains(id),
        post.value(id) == value,
        post@.contains_key(id),
        post@[id] == value,
{
    pre.lemma_added(value, &post, id);
}

/// After a successful `remove` the identifier refers to nothing, so `get`
/// returns `None` and a second `remove` reports `NotFound`; that second
/// `remove` leaves the container as it is, so the same holds of every
/// further one.
pub proof fn lemma_gone_after_remove<T>(
    pre: ReusableIndexVec<T>,
    id: ID,
    post: ReusableIndexVec<T>,
)
    requires
        pre.well_formed(),
        pre.contains(id),
        pre.removed(id, &post),
    ensures
        !post.contains(id),
        !post@.contains_key(id),
{
}

/// A stamp changes only when a removed position is occupied again, and then
/// it becomes the stamp that follows it.
pub proof fn lemma_stamp_changes_on_reuse_only<T>(
    pre: ReusableIndexVec<T>,
    change: Change<T>,
    post: ReusableIndexVec<T>,
    position: int,
)
    requires
        pre.well_formed(),
        step(pre, change, post),
        0 <= position < pre.nodes().len(),
    ensures
        position < post.nodes().len(),
        post.nodes()[position].stamp() == if !(pre.nodes()[position] is Exists)
            && post.nodes()[position] is Exists {
            next_stamp(pre.nodes()[position].stamp())
        } else {
            pre.nodes()[position].stamp()
        },
{
    if change is Added {
        pre.lemma_free_head();
    }
}

/// When `add` occupies the position of a removed element for the first time
/// since the removal, the new identifier has the same position and the stamp
/// that follows the old one, which differs from it; and the old identifier
/// refers to nothing, although its position holds an element.
pub proof fn lemma_reuse_bumps_stamp<T>(
    states: Seq<ReusableIndexVec<T>>,
    changes: Seq<Change<T>>,
    freed: int,
    reused: int,
)
    requires
        history(states, changes),
        0 <= freed < reused < changes.len(),
        changes[freed] is Removed,
        changes[reused] is Added,
        changes[reused]->Added_1.1 == changes[freed]->Removed_0.1,
        forall|k: int|
            freed < k < reused && (#[trigger] changes[k] is Added) ==> changes[k]->Added_1.1
                != changes[freed]->Removed_0.1,
    ensures
        changes[reused]->Added_1.0 == next_stamp(changes[freed]->Removed_0.0),
        changes[reused]->Added_1 != changes[freed]->Removed_0,
        !states[reused + 1].contains(changes[freed]->Removed_0),
        states[reused + 1].nodes()[changes[freed]->Removed_0.1 as int] is Exists,
{
    lemma_stays_free_until_reused(states, changes, freed, reused);
    lemma_history_well_formed(states, changes, reused);
}

/// The position of a removed element stays empty, under the stamp of the
/// removed element, until `add` occupies it.
proof fn lemma_stays_free_until_reused<T>(
    states: Seq<ReusableIndexVec<T>>,
    changes: Seq<Change<T>>,
    freed: int,
    j: int,
)
    requires
        history(states, changes),
        0 <= freed < j <= changes.len(),
        changes[freed] is Removed,
        forall|k: int|
            freed < k < j && (#[trigger] changes[k] is Added) ==> changes[k]->Added_1.1
                != changes[freed]->Removed_0.1,
    ensures
        changes[freed]->Removed_0.1 < states[j].nodes().len(),
        !(states[j].nodes()[changes[freed]->Removed_0.1 as int] is Exists),
        states[j].nodes()[changes[freed]->Removed_0.1 as int].stamp()
            == changes[freed]->Removed_0.0,
    decreases j,
{
    if j > freed + 1 {
        lemma_stays_free_until_reused(states, changes, freed, j - 1);
        lemma_history_well_formed(states, changes, j - 1);
        if changes[j - 1] is Added {
            states[j - 1].lemma_free_head();
        }
    }
}

/// How many of the changes from `from` up to `to` are calls of `add` that
/// occupied `position`.
pub open spec fn reuses<T>(changes: Seq<Change<T>>, position: Index, from: int, to: int) -> nat
    decreases to - from,
{
    if to <= from {
        0
    } else {
        let before = reuses(changes, position, from, to - 1);
        if changes[to - 1] matches Change::Added(_, id) && id.1 == position {
            before + 1
        } else {
            before
        }
    }
}

/// The stamp that a position has after it was occupied `count` more times
/// than under `stamp`.
pub open spec fn stamp_after(stamp: CycleStamp, count: nat) -> CycleStamp {
    ((stamp + count) % 0x1_0000_0000) as CycleStamp
}

/// After a removal, the stamp of the position counts how many times it has
/// been occupied since, and the position is empty as long as that is never.
proof fn lemma_position_after_removal<T>(
    states: Seq<ReusableIndexVec<T>>,
    changes: Seq<Change<T>>,
    freed: int,
    j: int,
)
    requires
        history(states, changes),
        0 <= freed < j <= changes.len(),
        changes[freed] is Removed,
    ensures
        changes[freed]->Removed_0.1 < states[j].nodes().len(),
        states[j].nodes()[changes[freed]->Removed_0.1 as int].stamp() == stamp_after(
            changes[freed]->Removed_0.0,
            reuses(changes, changes[freed]->Removed_0.1, freed + 1, j),
        ),
        reuses(changes, changes[freed]->Removed_0.1, freed + 1, j) == 0 ==> !(
        states[j].nodes()[changes[freed]->Removed_0.1 as int] is Exists),
    decreases j,
{
    if j > freed + 1 {
        lemma_position_after_removal(states, changes, freed, j - 1);
        lemma_history_well_formed(states, changes, j - 1);
        if changes[j - 1] is Added {
            states[j - 1].lemma_free_head();
        }
    }
}

/// The identifier of a removed element stays without an element through
/// whatever is added and removed later, as long as its position has been
/// occupied again fewer times than there are stamps.
pub proof fn lemma_removed_stays_gone<T>(
    states: Seq<ReusableIndexVec<T>>,
    changes: Seq<Change<T>>,
    freed: int,
    j: int,
)
    requires
        history(states, changes),
        0 <= freed < j <= changes.len(),
        changes[freed] is Removed,
        reuses(changes, changes[freed]->Removed_0.1, freed + 1, j) < 0x1_0000_0000,
    ensures
        !states[j].contains(changes[freed]->Removed_0),
{
    lemma_position_after_removal(states, changes, freed, j);
}

/// After two removals, the next two calls of `add` reuse the position of the
/// second removal and then that of the first, each under the stamp that
/// follows the removed one: what was freed last is reused first.
pub proof fn lemma_reuse_is_last_in_first_out<T>(
    start: ReusableIndexVec<T>,
    first: ID,
    after_first: ReusableIndexVec<T>,
    second: ID,
    after_second: ReusableIndexVec<T>,
    value_a: T,
    after_a: ReusableIndexVec<T>,
    id_a: ID,
    value_b: T,
    after_b: ReusableIndexVec<T>,
    id_b: ID,
)
    requires
        start.well_formed(),
        start.contains(first),
        start.removed(first, &after_first),
        after_first.contains(second),
        after_first.removed(second, &after_second),
        after_second.added(value_a, &after_a, id_a),
        after_a.added(value_b, &after_b, id_b),
    ensures
        id_a == ID(next_stamp(second.0), second.1),
        id_b == ID(next_stamp(first.0), first.1),
        after_b.free_list() == start.free_list(),
        after_b.free_head() == start.free_head(),
{
    start.lemma_removed(first, &after_first);
    after_first.lemma_removed(second, &after_second);
    after_second.lemma_added(value_a, &after_a, id_a);
    after_a.lemma_added(value_b, &after_b, id_b);
}

/// The positions of the first `count` changes, which are removals, the last
/// of them first.
pub open spec fn freed_last_first<T>(changes: Seq<Change<T>>, count: int) -> Seq<Index> {
    Seq::new(count as nat, |n: int| changes[count - 1 - n]->Removed_0.1)
}

/// Whether `changes` is `removals` removals followed by calls of `add` only.
pub open spec fn removals_then_adds<T>(changes: Seq<Change<T>>, removals: int) -> bool {
    &&& 0 <= removals <= changes.len()
    &&& forall|i: int| 0 <= i < removals ==> #[trigger] changes[i] is Removed
    &&& forall|i: int| removals <= i < changes.len() ==> #[trigger] changes[i] is Added
}

/// Through removals followed by as many calls of `add` at most, the free list
/// is a stack of the removed positions: each removal puts its position on
/// top, each `add` takes the top off and returns it under the stamp that
/// follows the removed one. The vector does not grow meanwhile.
proof fn lemma_free_list_is_a_stack<T>(
    states: Seq<ReusableIndexVec<T>>,
    changes: Seq<Change<T>>,
    removals: int,
    p: int,
)
    requires
        history(states, changes),
        removals_then_adds(changes, removals),
        states[0].free_head() is None,
        0 <= p <= changes.len(),
        p <= 2 * removals,
    ensures
        states[p].nodes().len() == states[0].nodes().len(),
        states[p].free_list() == freed_last_first(
            changes,
            if p <= removals {
                p
            } else {
                2 * removals - p
            },
        ),
        forall|m: int|
            0 <= m < (if p <= removals {
                p
            } else {
                2 * removals - p
            }) ==> {
                &&& (#[trigger] changes[m])->Removed_0.1 < states[p].nodes().len()
                &&& states[p].nodes()[changes[m]->Removed_0.1 as int].stamp()
                    == changes[m]->Removed_0.0
            },
        p > removals ==> changes[p - 1]->Added_1 == ID(
            next_stamp(changes[2 * removals - p]->Removed_0.0),
            changes[2 * removals - p]->Removed_0.1,
        ),
    decreases p,
{
    if p == 0 {
        states[0].lemma_free_head();
    } else {
        lemma_free_list_is_a_stack(states, changes, removals, p - 1);
        lemma_history_well_formed(states, changes, p - 1);
        let pre = states[p - 1];
        let post = states[p];
        let before = pre.free_list();
        pre.lemma_free_list_is_the_removed();
        pre.lemma_free_head();
        if p <= removals {
            pre.lemma_removed(changes[p - 1]->Removed_0, &post);
            assert forall|m: int| 0 <= m < p implies {
                &&& (#[trigger] changes[m])->Removed_0.1 < post.nodes().len()
                &&& post.nodes()[changes[m]->Removed_0.1 as int].stamp()
                    == changes[m]->Removed_0.0
            } by {
                if m < p - 1 {
                    assert(before[p - 2 - m] == changes[m]->Removed_0.1);
                }
            }
        } else {
            let left = 2 * removals - p;
            pre.lemma_added(changes[p - 1]->Added_0, &post, changes[p - 1]->Added_1);
            assert forall|m: int| 0 <= m < left implies {
                &&& (#[trigger] changes[m])->Removed_0.1 < post.nodes().len()
                &&& post.nodes()[changes[m]->Removed_0.1 as int].stamp()
                    == changes[m]->Removed_0.0
            } by {
                assert(before[left - m] == changes[m]->Removed_0.1);
            }
        }
    }
}

/// What was freed last is reused first, whatever the number of removals:
/// after removals from a container without a removed position, the calls of
/// `add` return the removed positions in the reverse order of their removal,
/// each under the stamp that follows the removed one; and the call after
/// those opens a new position, under the stamp zero.
pub proof fn lemma_reuse_takes_removals_in_reverse<T>(
    states: Seq<ReusableIndexVec<T>>,
    changes: Seq<Change<T>>,
    removals: int,
    j: int,
)
    requires
        history(states, changes),
        removals_then_adds(changes, removals),
        changes.len() == 2 * removals + 1,
        states[0].free_head() is None,
        0 <= j <= removals,
    ensures
        j < removals ==> changes[removals + j]->Added_1 == ID(
            next_stamp(changes[removals - 1 - j]->Removed_0.0),
            changes[removals - 1 - j]->Removed_0.1,
        ),
        j == removals ==> {
            &&& changes[2 * removals]->Added_1.0 == 0
            &&& changes[2 * removals]->Added_1.1 == states[0].nodes().len()
        },
{
    if j < removals {
        lemma_free_list_is_a_stack(states, changes, removals, removals + j + 1);
    } else {
        lemma_free_list_is_a_stack(states, changes, removals, 2 * removals);
        lemma_history_well_formed(states, changes, 2 * removals);
        states[2 * removals].lemma_free_head();
    }
}

/// The positions that `live_positions` lists from `start` on are exactly
/// those at or after `start` that hold an element, in strictly ascending
/// order.
pub proof fn lemma_live_positions<T>(nodes: Seq<ReusableIndexNode<T>>, start: int)
    requires
        0 <= start <= nodes.len(),
    ensures
        forall|k: int|
            0 <= k < live_positions(nodes, start).len() ==> {
                &&& start <= (#[trigger] live_positions(nodes, start)[k]) < nodes.len()
                &&& nodes[live_positions(nodes, start)[k]] is Exists
            },
        forall|j: int, k: int|
            0 <= j < k < live_positions(nodes, start).len() ==> live_positions(nodes, start)[j]
                < live_positions(nodes, start)[k],
        forall|i: int|
            start <= i < nodes.len() && #[trigger] nodes[i] is Exists ==> live_positions(
                nodes,
                start,
            ).contains(i),
    decreases nodes.len() - start,
{
    let here = live_positions(nodes, start);
    if start < nodes.len() {
        let rest = live_positions(nodes, start + 1);
        lemma_live_positions(nodes, start + 1);
        if nodes[start] is Exists {
            assert forall|i: int|
                start <= i < nodes.len() && #[trigger] nodes[i] is Exists implies here.contains(
                i,
            ) by {
                if i == start {
                    assert(here[0] == i);
                } else {
                    let k = choose|k: int| 0 <= k < rest.len() && rest[k] == i;
                    assert(here[k + 1] == i);
                }
            }
        }
    }
}

/// Iteration yields the elements of exactly the identifiers that `get`
/// resolves, each once, in ascending order of position; no removed position
/// contributes.
pub proof fn lemma_iteration_complete<T>(list: ReusableIndexVec<T>)
    ensures
        list.elements().len() == list.handles().len(),
        forall|k: int|
            0 <= k < list.handles().len() ==> {
                &&& list.contains(#[trigger] list.handles()[k])
                &&& list.elements()[k] == list.value(list.handles()[k])
            },
        forall|j: int, k: int|
            0 <= j < k < list.handles().len() ==> list.handles()[j].1 < list.handles()[k].1,
        forall|id: ID| list.contains(id) ==> list.handles().contains(id),
{
    let nodes = list.nodes();
    let positions = live_positions(nodes, 0);
    let handles = list.handles();
    list.lemma_positions_fit();
    lemma_live_positions(nodes, 0);
    assert forall|id: ID| list.contains(id) implies handles.contains(id) by {
        let k = choose|k: int| 0 <= k < positions.len() && positions[k] == id.1 as int;
        assert(handles[k] == id);
    }
}

} // verus!
