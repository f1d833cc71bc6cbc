//! A map-like vector that assigns an identifier to every added element and
//! reuses the positions of removed elements.

use vstd::prelude::*;
use vstd::string::StringExecFns;

use crate::error::{Error, ErrorType};
use crate::list::{CycleStamp, Index, ListResult, ID};
use crate::text::{decimal, push_decimal};

verus! {

/// One position of the vector.
///
/// Only `Exists` carries an element. `Removed` and `RemovedAndNext` both mean
/// that the element is gone; they keep the stamp of the last occupant, and the
/// latter also links to the position that is to be reused after this one.
///
/// The stamp has 32 bits so that, on a 64-bit machine, a node is 8 bytes
/// larger than an element that is aligned to 8 bytes: there will be long
/// vectors of these.
#[derive(Debug)]
pub enum ReusableIndexNode<T> {
    /// The value of type `T` exists. It is on the cycle `CycleStamp`.
    Exists(CycleStamp, T),
    /// The value has been removed; no further position is linked.
    Removed(CycleStamp),
    /// The value has been removed; `Index` is the next position to reuse.
    RemovedAndNext(CycleStamp, Index),
}

impl<T> ReusableIndexNode<T> {
    /// The cycle stamp recorded in the node.
    pub open spec fn stamp(self) -> CycleStamp {
        match self {
            ReusableIndexNode::Exists(stamp, _) => stamp,
            ReusableIndexNode::Removed(stamp) => stamp,
            ReusableIndexNode::RemovedAndNext(stamp, _) => stamp,
        }
    }

    /// The position linked from the node, if any.
    pub open spec fn link(self) -> Option<Index> {
        match self {
            ReusableIndexNode::RemovedAndNext(_, next) => Some(next),
            _ => None,
        }
    }
}

/// The stamp that follows `stamp`: one more, wrapping to zero after the
/// largest value.
pub open spec fn next_stamp(stamp: CycleStamp) -> CycleStamp {
    if stamp == u32::MAX {
        0
    } else {
        (stamp + 1) as u32
    }
}

/// Whether `free` is the chain of removed positions of `nodes` that starts at
/// `head`: it lists every removed position exactly once, each node of the
/// chain links to its successor, and the last one links nowhere.
#[verifier::opaque]
pub open spec fn is_free_chain<T>(
    nodes: Seq<ReusableIndexNode<T>>,
    head: Option<Index>,
    free: Seq<Index>,
) -> bool {
    &&& free.no_duplicates()
    &&& head == if free.len() == 0 {
        None
    } else {
        Some(free[0])
    }
    &&& forall|k: int|
        0 <= k < free.len() ==> {
            &&& (#[trigger] free[k]) < nodes.len()
            &&& !(nodes[free[k] as int] is Exists)
            &&& nodes[free[k] as int].link() == if k + 1 < free.len() {
                Some(free[k + 1])
            } else {
                None
            }
        }
    &&& forall|i: int| 0 <= i < nodes.len() && !(#[trigger] nodes[i] is Exists) ==> lists(free, i)
}

/// Whether position `i` occurs in `free`.
pub open spec fn lists(free: Seq<Index>, i: int) -> bool {
    exists|k: int| 0 <= k < free.len() && #[trigger] free[k] == i
}

/// Two chains of the same nodes from the same head agree up to position
/// `k`.
proof fn lemma_free_chains_agree<T>(
    nodes: Seq<ReusableIndexNode<T>>,
    head: Option<Index>,
    a: Seq<Index>,
    b: Seq<Index>,
    k: int,
)
    requires
        is_free_chain(nodes, head, a),
        is_free_chain(nodes, head, b),
        0 <= k < a.len(),
    ensures
        k < b.len(),
        a[k] == b[k],
    decreases k,
{
    reveal(is_free_chain);
    if k > 0 {
        lemma_free_chains_agree(nodes, head, a, b, k - 1);
    }
}

/// A chain stays the chain of the nodes after one of their elements is
/// replaced by another.
pub proof fn lemma_chain_outlives_replacement<T>(
    nodes: Seq<ReusableIndexNode<T>>,
    head: Option<Index>,
    free: Seq<Index>,
    position: int,
    stamp: CycleStamp,
    value: T,
)
    requires
        is_free_chain(nodes, head, free),
        0 <= position < nodes.len(),
        nodes[position] is Exists,
    ensures
        is_free_chain(
            nodes.update(position, ReusableIndexNode::Exists(stamp, value)),
            head,
            free,
        ),
{
    reveal(is_free_chain);
}

/// The nodes and the head determine the chain of removed positions.
pub proof fn lemma_free_chain_unique<T>(
    nodes: Seq<ReusableIndexNode<T>>,
    head: Option<Index>,
    a: Seq<Index>,
    b: Seq<Index>,
)
    requires
        is_free_chain(nodes, head, a),
        is_free_chain(nodes, head, b),
    ensures
        a == b,
{
    if a.len() > 0 {
        lemma_free_chains_agree(nodes, head, a, b, a.len() - 1);
    }
    if b.len() > 0 {
        lemma_free_chains_agree(nodes, head, b, a, b.len() - 1);
    }
    assert forall|k: int| 0 <= k < a.len() implies a[k] == b[k] by {
        lemma_free_chains_agree(nodes, head, a, b, k);
    }
}

/// The positions of `nodes` from `start` on that hold an element, in
/// ascending order.
pub open spec fn live_positions<T>(nodes: Seq<ReusableIndexNode<T>>, start: int) -> Seq<int>
    decreases nodes.len() - start,
{
    if start < 0 || start >= nodes.len() {
        Seq::empty()
    } else if nodes[start] is Exists {
        seq![start] + live_positions(nodes, start + 1)
    } else {
        live_positions(nodes, start + 1)
    }
}

/// The elements of `nodes` from `start` on, in ascending order of position.
pub open spec fn elements<T>(nodes: Seq<ReusableIndexNode<T>>, start: int) -> Seq<T> {
    live_positions(nodes, start).map_values(|i: int| nodes[i]->Exists_1)
}

/// The description of the error that `remove` reports for `id`.
pub open spec fn not_found_text(id: ID) -> Seq<char> {
    "node with id "@ + decimal(id.0 as nat) + "::"@ + decimal(id.1 as nat) + " not found"@
}

/// The error that `remove` reports for `id`.
fn not_found(id: ID) -> (e: Error)
    ensures
        e.kind() == ErrorType::NotFound,
        e.desc() == not_found_text(id),
{
    let mut text = String::from_str("node with id ");
    push_decimal(&mut text, id.0 as u64);
    text.append("::");
    push_decimal(&mut text, id.1 as u64);
    text.append(" not found");
    Error::new(ErrorType::NotFound, text.as_str())
}

/// A fast map-like data structure that assigns an `ID` to every added
/// element.
///
/// ```
/// use bugeutils::list::ReusableIndexVec;
///
/// let mut entity_vec = ReusableIndexVec::new();
///
/// let string1_id = entity_vec.add("A string is added");
/// let string2_id = entity_vec.add("Another string with another id");
///
/// assert_ne!(string1_id, string2_id);
///
/// if let Some(some_string) = entity_vec.get(string1_id) {
///     println!("{}", some_string); // prints 'A string is added'
/// }
/// ```
///
/// Removing an element leaves a tombstone in its position. The tombstones are
/// chained, most recently removed first, and `add` reuses the head of the
/// chain before it grows the vector. An identifier carries the stamp of the
/// cycle of reuse in which its element was added, so the identifier of a
/// removed element does not reach the element that took its position.
#[derive(Debug)]
pub struct ReusableIndexVec<T> {
    vector: Vec<ReusableIndexNode<T>>,
    last_removed: Option<Index>,
}

const DEFAULT_INITIAL_CAPACITY: usize = 128;

impl<T> View for ReusableIndexVec<T> {
    type V = Map<ID, T>;

    /// The elements that can be reached, each under its identifier.
    open spec fn view(&self) -> Map<ID, T> {
        Map::new(|id: ID| self.contains(id), |id: ID| self.value(id))
    }
}

impl<T> ReusableIndexVec<T> {
    /// Every position of the vector, tombstones included.
    pub closed spec fn nodes(&self) -> Seq<ReusableIndexNode<T>> {
        self.vector@
    }

    /// The position that the next `add` reuses, if there is one.
    pub closed spec fn free_head(&self) -> Option<Index> {
        self.last_removed
    }

    /// The invariant of the container: the removed positions form one chain
    /// that starts at `free_head`.
    pub open spec fn well_formed(&self) -> bool {
        exists|free: Seq<Index>| is_free_chain(self.nodes(), self.free_head(), free)
    }

    /// The removed positions in the order in which `add` reuses them: the
    /// one chain that starts at `free_head`.
    pub open spec fn free_list(&self) -> Seq<Index> {
        choose|free: Seq<Index>| is_free_chain(self.nodes(), self.free_head(), free)
    }

    /// The free list of a well-formed container is the only chain of its
    /// removed positions.
    pub proof fn lemma_free_list(&self, free: Seq<Index>)
        requires
            is_free_chain(self.nodes(), self.free_head(), free),
        ensures
            self.well_formed(),
            self.free_list() == free,
    {
        lemma_free_chain_unique(self.nodes(), self.free_head(), free, self.free_list());
    }

    /// Whether `id` refers to an element of the container: its position is in
    /// bounds and holds an element that was added under the stamp of `id`.
    pub open spec fn contains(&self, id: ID) -> bool {
        &&& id.1 < self.nodes().len()
        &&& self.nodes()[id.1 as int] is Exists
        &&& self.nodes()[id.1 as int].stamp() == id.0
    }

    /// The element at the position of `id`.
    pub open spec fn value(&self, id: ID) -> T
        recommends
            self.contains(id),
    {
        self.nodes()[id.1 as int]->Exists_1
    }

    /// The identifier of the element at `position`.
    pub open spec fn handle_at(&self, position: int) -> ID
        recommends
            0 <= position < self.nodes().len(),
            self.nodes()[position] is Exists,
    {
        ID(self.nodes()[position].stamp(), position as Index)
    }

    /// The identifiers of the existing elements, in ascending order of
    /// position: the order in which iteration yields the elements.
    pub open spec fn handles(&self) -> Seq<ID> {
        live_positions(self.nodes(), 0).map_values(|i: int| self.handle_at(i))
    }

    /// The existing elements in ascending order of position: what iteration
    /// yields.
    pub open spec fn elements(&self) -> Seq<T> {
        elements(self.nodes(), 0)
    }

    /// Every position fits the type of an index.
    pub proof fn lemma_positions_fit(&self)
        ensures
            self.nodes().len() <= usize::MAX,
    {
        vstd::std_specs::vec::axiom_spec_len(&self.vector);
    }

    /// Creates a new empty `ReusableIndexVec`.
    pub fn new() -> (list: Self)
        ensures
            list.well_formed(),
            list.nodes() == Seq::<ReusableIndexNode<T>>::empty(),
            list.free_head() == None::<Index>,
            list.free_list() == Seq::<Index>::empty(),
            list@ == Map::<ID, T>::empty(),
    {
        Self::with_capacity(DEFAULT_INITIAL_CAPACITY)
    }

    /// Creates a new empty `ReusableIndexVec` with room for `capacity`
    /// positions. The capacity only reserves storage: no position exists yet.
    pub fn with_capacity(capacity: usize) -> (list: Self)
        ensures
            list.well_formed(),
            list.nodes() == Seq::<ReusableIndexNode<T>>::empty(),
            list.free_head() == None::<Index>,
            list.free_list() == Seq::<Index>::empty(),
            list@ == Map::<ID, T>::empty(),
    {
        let list = Self { vector: Vec::with_capacity(capacity), last_removed: None };
        proof {
            reveal(is_free_chain);
            list.lemma_free_list(Seq::empty());
        }
        list
    }

    /// The position that `add` reuses next is the first of the free list, is
    /// in bounds and holds no element; where there is none, the free list is
    /// empty and every position holds an element.
    pub proof fn lemma_free_head(&self)
        requires
            self.well_formed(),
        ensures
            match self.free_head() {
                Some(i) => {
                    &&& self.free_list().len() > 0
                    &&& self.free_list()[0] == i
                    &&& i < self.nodes().len()
                    &&& !(self.nodes()[i as int] is Exists)
                },
                None => {
                    &&& self.free_list().len() == 0
                    &&& forall|i: int|
                        0 <= i < self.nodes().len() ==> #[trigger] self.nodes()[i] is Exists
                },
            },
    {
        reveal(is_free_chain);
    }

    /// The free list holds every removed position once, and no other.
    pub proof fn lemma_free_list_is_the_removed(&self)
        requires
            self.well_formed(),
        ensures
            self.free_list().no_duplicates(),
            forall|k: int|
                0 <= k < self.free_list().len() ==> {
                    &&& (#[trigger] self.free_list()[k]) < self.nodes().len()
                    &&& !(self.nodes()[self.free_list()[k] as int] is Exists)
                },
            forall|i: int|
                0 <= i < self.nodes().len() && !(#[trigger] self.nodes()[i] is Exists) ==> lists(
                    self.free_list(),
                    i,
                ),
    {
        reveal(is_free_chain);
    }

    /// What `add` does to the container: how `post` and `id` follow from
    /// `self` and `value`.
    pub open spec fn added(&self, value: T, post: &Self, id: ID) -> bool {
        match self.free_head() {
            Some(i) => {
                &&& id == ID(next_stamp(self.nodes()[i as int].stamp()), i)
                &&& post.nodes() == self.nodes().update(
                    i as int,
                    ReusableIndexNode::Exists(id.0, value),
                )
                &&& post.free_head() == self.nodes()[i as int].link()
            },
            None => {
                &&& id.0 == 0
                &&& id.1 == self.nodes().len()
                &&& post.nodes() == self.nodes().push(ReusableIndexNode::Exists(0, value))
                &&& post.free_head() == None::<Index>
            },
        }
    }

    /// `add` keeps the container well formed, returns an identifier that did
    /// not refer to anything before, and changes nothing but what that
    /// identifier refers to.
    pub proof fn lemma_added(&self, value: T, post: &Self, id: ID)
        requires
            self.well_formed(),
            self.added(value, post, id),
        ensures
            post.well_formed(),
            post.free_list() == if self.free_head() is Some {
                self.free_list().skip(1)
            } else {
                self.free_list()
            },
            !self.contains(id),
            post.contains(id),
            post.value(id) == value,
            forall|other: ID| other != id ==> post.contains(other) == self.contains(other),
            forall|other: ID| self.contains(other) ==> post.value(other) == self.value(other),
            post@ == self@.insert(id, value),
    {
        reveal(is_free_chain);
        let free = self.free_list();
        if self.free_head() is Some {
            let after = free.skip(1);
            assert forall|j: int|
                0 <= j < post.nodes().len() && !(#[trigger] post.nodes()[j] is Exists) implies lists(
                after,
                j,
            ) by {
                let k = choose|k: int| 0 <= k < free.len() && #[trigger] free[k] == j;
                assert(after[k - 1] == j);
            }
            post.lemma_free_list(after);
        } else {
            post.lemma_free_list(free);
        }
    }

    /// Adds a new element, returning the identifier associated with it.
    ///
    /// The most recently removed position is reused, under the stamp that
    /// follows the one of its last occupant. Where no position is free the
    /// vector grows by one position, whose first stamp is zero.
    pub fn add(&mut self, node: T) -> (id: ID)
        requires
            old(self).well_formed(),
        ensures
            final(self).well_formed(),
            old(self).added(node, final(self), id),
            final(self).free_list() == if old(self).free_head() is Some {
                old(self).free_list().skip(1)
            } else {
                old(self).free_list()
            },
            !old(self)@.contains_key(id),
            final(self)@ == old(self)@.insert(id, node),
    {
        proof {
            self.lemma_free_head();
        }
        let id = match self.last_removed {
            Some(last_removed) => {
                let (stamp, next): (CycleStamp, Option<Index>) = match &self.vector[last_removed] {
                    ReusableIndexNode::Removed(stamp) => (*stamp, None),
                    ReusableIndexNode::RemovedAndNext(stamp, next) => (*stamp, Some(*next)),
                    ReusableIndexNode::Exists(_, _) => vstd::pervasive::unreached(),
                };
                let new_stamp: CycleStamp = stamp.wrapping_add(1);
                self.vector[last_removed] = ReusableIndexNode::Exists(new_stamp, node);
                self.last_removed = next;
                ID(new_stamp, last_removed)
            },
            None => {
                self.vector.push(ReusableIndexNode::Exists(0, node));
                ID(0, self.vector.len() - 1)
            },
        };
        proof {
            old(self).lemma_added(node, self, id);
        }
        id
    }

    /// What a successful `remove` does to the container: how `post` follows
    /// from `self` and `id`.
    pub open spec fn removed(&self, id: ID, post: &Self) -> bool {
        &&& post.nodes() == self.nodes().update(
            id.1 as int,
            match self.free_head() {
                Some(next) => ReusableIndexNode::RemovedAndNext(id.0, next),
                None => ReusableIndexNode::Removed(id.0),
            },
        )
        &&& post.free_head() == Some(id.1)
    }

    /// A successful `remove` keeps the container well formed and changes
    /// nothing but what its identifier refers to.
    pub proof fn lemma_removed(&self, id: ID, post: &Self)
        requires
            self.well_formed(),
            self.contains(id),
            self.removed(id, post),
        ensures
            post.well_formed(),
            post.free_list() == seq![id.1] + self.free_list(),
            !post.contains(id),
            forall|other: ID| other != id ==> post.contains(other) == self.contains(other),
            forall|other: ID| post.contains(other) ==> post.value(other) == self.value(other),
            post@ == self@.remove(id),
    {
        reveal(is_free_chain);
        let free = self.free_list();
        let after = seq![id.1] + free;
        assert forall|j: int|
            0 <= j < post.nodes().len() && !(#[trigger] post.nodes()[j] is Exists) implies lists(
            after,
            j,
        ) by {
            if j == id.1 {
                assert(after[0] == j);
            } else {
                let k = choose|k: int| 0 <= k < free.len() && #[trigger] free[k] == j;
                assert(after[k + 1] == j);
            }
        }
        assert(after.no_duplicates());
        post.lemma_free_list(after);
    }

    /// Removes the element associated with the given identifier.
    ///
    /// The position of the element becomes the first to be reused.
    ///
    /// # Errors
    /// Returns an error of type `NotFound`, and leaves the container as it
    /// is, if `id` refers to no element: its position is out of bounds or
    /// empty, or the element there was added under another stamp.
    pub fn remove(&mut self, id: ID) -> (result: ListResult<()>)
        requires
            old(self).well_formed(),
        ensures
            final(self).well_formed(),
            match result {
                Ok(()) => {
                    &&& old(self).contains(id)
                    &&& old(self).removed(id, final(self))
                    &&& final(self).free_list() == seq![id.1] + old(self).free_list()
                    &&& final(self)@ == old(self)@.remove(id)
                },
                Err(e) => {
                    &&& !old(self).contains(id)
                    &&& *final(self) == *old(self)
                    &&& e.kind() == ErrorType::NotFound
                    &&& e.desc() == not_found_text(id)
                },
            },
    {
        let ID(requested_cycle_stamp, index) = id;
        if index < self.vector.len() {
            let found: Option<CycleStamp> = match &self.vector[index] {
                ReusableIndexNode::Exists(cycle_stamp, _) => Some(*cycle_stamp),
                _ => None,
            };
            if let Some(cycle_stamp) = found {
                if requested_cycle_stamp == cycle_stamp {
                    if let Some(last_removed) = self.last_removed {
                        self.vector[index] = ReusableIndexNode::RemovedAndNext(
                            cycle_stamp,
                            last_removed,
                        );
                    } else {
                        self.vector[index] = ReusableIndexNode::Removed(cycle_stamp);
                    }
                    self.last_removed = Some(index);
                    proof {
                        old(self).lemma_removed(id, self);
                    }
                    return Ok(());
                }
            }
        }
        Err(not_found(id))
    }

    /// The stamp and the element at `index`, if an element exists there.
    fn get_by_index(&self, index: Index) -> (found: Option<(CycleStamp, &T)>)
        ensures
            found == if index < self.nodes().len() && self.nodes()[index as int] is Exists {
                Some(
                    (
                        self.nodes()[index as int].stamp(),
                        &self.nodes()[index as int]->Exists_1,
                    ),
                )
            } else {
                None
            },
    {
        if index < self.vector.len() {
            match &self.vector[index] {
                ReusableIndexNode::Exists(cycle_stamp, node) => Some((*cycle_stamp, node)),
                _ => None,
            }
        } else {
            None
        }
    }

    /// The stamp of the element at `index` and mutable access to it, if an
    /// element exists there.
    fn get_by_index_mut(&mut self, index: Index) -> (found: Option<(CycleStamp, &mut T)>)
        ensures
            match found {
                Some((cycle_stamp, node)) => {
                    &&& index < old(self).nodes().len()
                    &&& old(self).nodes()[index as int] == ReusableIndexNode::Exists(
                        cycle_stamp,
                        *node,
                    )
                    &&& final(self).nodes() == old(self).nodes().update(
                        index as int,
                        ReusableIndexNode::Exists(cycle_stamp, *final(node)),
                    )
                    &&& final(self).free_head() == old(self).free_head()
                },
                None => {
                    &&& !(index < old(self).nodes().len() && old(
                        self,
                    ).nodes()[index as int] is Exists)
                    &&& final(self).nodes() == old(self).nodes()
                    &&& final(self).free_head() == old(self).free_head()
                },
            },
    {
        if index < self.vector.len() {
            match &mut self.vector[index] {
                ReusableIndexNode::Exists(cycle_stamp, node) => Some((*cycle_stamp, node)),
                _ => None,
            }
        } else {
            None
        }
    }

    /// Returns a reference to the element associated with the given
    /// identifier.
    ///
    /// Returns `None` if the element does not exist.
    pub fn get(&mut self, id: ID) -> (found: Option<&T>)
        ensures
            *final(self) == *old(self),
            found == if old(self).contains(id) {
                Some(&old(self).value(id))
            } else {
                None
            },
    {
        let ID(cycle_stamp, index) = id;
        let (found_cycle_stamp, node) = self.get_by_index(index)?;
        if cycle_stamp == found_cycle_stamp {
            Some(node)
        } else {
            None
        }
    }

    /// What writing `value` through the reference that `get_mut` returns for
    /// `id` does to the container.
    pub open spec fn replaced(&self, id: ID, value: T, post: &Self) -> bool {
        &&& post.nodes() == self.nodes().update(
            id.1 as int,
            ReusableIndexNode::Exists(id.0, value),
        )
        &&& post.free_head() == self.free_head()
    }

    /// Replacing an element keeps the container well formed and changes
    /// nothing but the element that its identifier refers to.
    pub proof fn lemma_replaced(&self, id: ID, value: T, post: &Self)
        requires
            self.well_formed(),
            self.contains(id),
            self.replaced(id, value, post),
        ensures
            post.well_formed(),
            post.free_list() == self.free_list(),
            post.value(id) == value,
            forall|other: ID| post.contains(other) == self.contains(other),
            forall|other: ID|
                other != id && self.contains(other) ==> post.value(other) == self.value(other),
            post@ == self@.insert(id, value),
    {
        lemma_chain_outlives_replacement(
            self.nodes(),
            self.free_head(),
            self.free_list(),
            id.1 as int,
            id.0,
            value,
        );
        post.lemma_free_list(self.free_list());
    }

    /// Returns a mutable reference to the element associated with the given
    /// identifier.
    ///
    /// Returns `None` if the element does not exist. What is written through
    /// the reference replaces the element; its identifier stays valid.
    pub fn get_mut(&mut self, id: ID) -> (found: Option<&mut T>)
        requires
            old(self).well_formed(),
        ensures
            final(self).well_formed(),
            match found {
                Some(node) => {
                    &&& old(self).contains(id)
                    &&& *node == old(self).value(id)
                    &&& old(self).replaced(id, *final(node), final(self))
                    &&& final(self)@ == old(self)@.insert(id, *final(node))
                },
                None => {
                    &&& !old(self).contains(id)
                    &&& final(self).nodes() == old(self).nodes()
                    &&& final(self).free_head() == old(self).free_head()
                    &&& final(self)@ == old(self)@
                },
            },
    {
        let ID(cycle_stamp, index) = id;
        let (found_cycle_stamp, node) = self.get_by_index_mut(index)?;
        proof {
            lemma_chain_outlives_replacement(
                old(self).nodes(),
                old(self).free_head(),
                old(self).free_list(),
                index as int,
                found_cycle_stamp,
                *final(node),
            );
        }
        if cycle_stamp == found_cycle_stamp {
            Some(node)
        } else {
            None
        }
    }

    /// Every position of the vector, in order, the removed ones included.
    #[inline]
    pub fn as_slice(&self) -> (slice: &[ReusableIndexNode<T>])
        ensures
            slice@ == self.nodes(),
    {
        self.vector.as_slice()
    }

    /// Returns an iterator on the list of existing elements.
    #[inline]
    pub fn iter<'vec>(&'vec self) -> (iterator: ReusableIndexIterator<'vec, T>)
        ensures
            iterator.well_formed(),
            iterator.nodes() == self.nodes(),
            iterator.position() == 0,
            iterator.remaining() == self.elements(),
    {
        ReusableIndexIterator {
            slice: self.vector.as_slice(),
            length: self.vector.len(),
            index: 0,
        }
    }
}

/// A walk over the existing elements of a `ReusableIndexVec`, in ascending
/// order of position. It sees the vector as it was when the walk began.
#[derive(Debug)]
pub struct ReusableIndexIterator<'vec, T> {
    slice: &'vec [ReusableIndexNode<T>],
    length: usize,
    index: usize,
}

impl<'vec, T> Clone for ReusableIndexIterator<'vec, T> {
    fn clone(&self) -> (copy: Self)
        ensures
            copy == *self,
    {
        *self
    }
}

impl<'vec, T> Copy for ReusableIndexIterator<'vec, T> {

}

impl<'vec, T> ReusableIndexIterator<'vec, T> {
    /// The positions that the walk goes over.
    pub closed spec fn nodes(&self) -> Seq<ReusableIndexNode<T>> {
        self.slice@
    }

    /// The position that the walk looks at next.
    pub closed spec fn position(&self) -> int {
        self.index as int
    }

    /// The invariant of the iterator: its position is within the vector.
    pub closed spec fn well_formed(&self) -> bool {
        &&& self.length == self.slice@.len()
        &&& self.index <= self.length
    }

    /// The elements that the walk has yet to yield, in order.
    pub open spec fn remaining(&self) -> Seq<T> {
        elements(self.nodes(), self.position())
    }

    /// Gathers the elements that the walk has yet to yield, in order, and
    /// ends the walk.
    pub fn collect(self) -> (items: Vec<&'vec T>)
        requires
            self.well_formed(),
        ensures
            items@.len() == self.remaining().len(),
            forall|k: int| 0 <= k < items@.len() ==> *items@[k] == self.remaining()[k],
    {
        let mut walk = self;
        let mut items: Vec<&'vec T> = Vec::new();
        loop
            invariant
                walk.well_formed(),
                walk.nodes() == self.nodes(),
                items@.len() + walk.remaining().len() == self.remaining().len(),
                forall|k: int| 0 <= k < items@.len() ==> *items@[k] == self.remaining()[k],
                forall|k: int|
                    0 <= k < walk.remaining().len() ==> walk.remaining()[k]
                        == self.remaining()[items@.len() + k],
            ensures
                items@.len() == self.remaining().len(),
                forall|k: int| 0 <= k < items@.len() ==> *items@[k] == self.remaining()[k],
            decreases walk.remaining().len(),
        {
            match walk.next() {
                Some(item) => {
                    items.push(item);
                },
                None => {
                    break ;
                },
            }
        }
        items
    }

    /// Yields the next existing element, skipping the removed ones, or `None`
    /// once the walk has reached the end of the vector.
    pub fn next(&mut self) -> (item: Option<&'vec T>)
        requires
            old(self).well_formed(),
        ensures
            final(self).well_formed(),
            final(self).nodes() == old(self).nodes(),
            match item {
                Some(element) => {
                    &&& old(self).remaining().len() > 0
                    &&& *element == old(self).remaining()[0]
                    &&& final(self).remaining() == old(self).remaining().skip(1)
                    &&& final(self).position() == live_positions(
                        old(self).nodes(),
                        old(self).position(),
                    )[0] + 1
                },
                None => {
                    &&& old(self).remaining().len() == 0
                    &&& final(self).position() == old(self).nodes().len()
                },
            },
    {
        while self.index < self.length
            invariant
                self.well_formed(),
                self.slice == old(self).slice,
                old(self).index <= self.index,
                live_positions(self.slice@, self.index as int) == live_positions(
                    old(self).slice@,
                    old(self).index as int,
                ),
            decreases self.length - self.index,
        {
            match &self.slice[self.index] {
                ReusableIndexNode::Exists(_, item) => {
                    self.index += 1;
                    return Some(item);
                },
                _ => {
                    self.index += 1;
                },
            }
        }
        None
    }
}

} // verus!
