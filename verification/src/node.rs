//! The public node handle and its operations.
//!
//! A [`Node`] is a strong, shared handle on one node's storage: cloning a
//! handle aliases the same storage, and equality of handles is storage
//! identity, never value equality. The storage behind a handle is shared
//! and interior-mutable, so no contract here can pin down what a read
//! returns: any alias may have changed the contents since the handle was
//! made. What is verified is the bookkeeping itself: how an adjacency
//! snapshot or a membership snapshot is transformed (see [`crate::link`]
//! and [`crate::registry`]), which identity a resolved or downgraded
//! reference carries, and when the release of a handle is the release of
//! the component's last external handle.

use vstd::prelude::*;

use crate::link::attach_link;
use crate::link::detach_link;
use crate::link::WeakNode;
use crate::registry::absorb_members;
use crate::registry::Tracker;
use crate::storage::cell_downgrade;
use crate::storage::cell_links;
use crate::storage::cell_new;
use crate::storage::cell_same;
use crate::storage::cell_set_links;
use crate::storage::cell_set_tracker;
use crate::storage::cell_set_value;
use crate::storage::cell_tracker;
use crate::storage::cell_value;
use crate::storage::id_mint;
use crate::storage::id_same;
use crate::storage::members_clear;
use crate::storage::members_read;
use crate::storage::members_set;
use crate::storage::members_strong_counts;
use crate::storage::weak_upgrade;
use crate::storage::NodeCell;
use crate::storage::NodeId;

verus! {

/// What one node's storage holds: the payload, the adjacency list (weak in
/// both directions, so edges alone keep nothing alive) and the tracker of
/// the connected component the node currently belongs to.
#[verifier::reject_recursive_types(T)]
pub(crate) struct RawNode<T: Clone + Eq> {
    pub(crate) value: T,
    pub(crate) neighbors: Vec<WeakNode<T>>,
    pub(crate) tracker: Tracker<T>,
}

impl<T: Clone + Eq> RawNode<T> {
    /// Fresh storage contents: the given value, no neighbors yet, and a
    /// fresh tracker with no members yet.
    pub(crate) fn new(value: T) -> (r: Self)
        ensures
            r.value == value,
            r.neighbors@ == Seq::<WeakNode<T>>::empty(),
    {
        RawNode { value, neighbors: Vec::new(), tracker: Tracker::new() }
    }
}

/// A shared handle on one node of the graph. Handles alias: every clone,
/// every entry of a tracker and every resolved neighbor reaches the same
/// storage, and a mutation through any of them is visible through all.
#[verifier::reject_recursive_types(T)]
pub struct Node<T: Clone + Eq> {
    pub(crate) cell: NodeCell<T>,
    pub(crate) id: NodeId,
}

impl<T: Clone + Eq> Node<T> {
    /// The identity of the node this handle aliases.
    pub closed spec fn ident(self) -> NodeId {
        self.id
    }

    /// The identity token of the node this handle aliases.
    pub(crate) fn id_token(&self) -> (r: &NodeId)
        ensures
            *r == self.ident(),
    {
        &self.id
    }

    /// A standalone node holding `value`: fresh storage, an empty
    /// adjacency list, and a fresh tracker whose one member it is.
    pub fn new(value: T) -> Node<T> {
        let raw = RawNode::new(value);
        let tracker = raw.tracker.clone();
        let node = Node { cell: cell_new(raw), id: id_mint() };
        tracker.add(node.clone());
        node
    }

    /// A duplicate of the value the node holds right now. The storage is
    /// shared, so no more can be said of which value that is than the
    /// caller knows from its own last write.
    pub fn value(&self) -> T {
        cell_value(&self.cell)
    }

    /// Replaces the node's value by `f` applied to it: one scoped read,
    /// then one scoped write, visible through every handle that aliases
    /// this node. `f` must accept whatever value the node holds.
    pub fn update_value<F: Fn(T) -> T>(&self, f: F)
        requires
            forall|x: T| #[trigger] call_requires(f, (x,)),
    {
        let current = cell_value(&self.cell);
        let updated = f(current);
        cell_set_value(&self.cell, updated);
    }

    /// One resolved handle per adjacency entry, in adjacency-list order.
    /// Resolution of an entry whose target was reclaimed is a fatal fault:
    /// a live node's neighbors are kept alive by the component's tracker,
    /// so such an entry means the reclamation invariant was broken.
    pub fn neighbors(&self) -> Vec<Node<T>> {
        let links = cell_links(&self.cell);
        let mut out: Vec<Node<T>> = Vec::new();
        let mut i: usize = 0;
        while i < links.len()
            invariant
                i <= links@.len(),
                out@.len() == i,
                forall|k: int| 0 <= k < i ==> out@[k].ident() == links@[k].target_id(),
            decreases links@.len() - i,
        {
            out.push(links[i].upgrade());
            i += 1;
        }
        out
    }

    /// Links `self` and `other` by an undirected edge, idempotently: if
    /// the edge is already there (by identity), the adjacency lists are
    /// left as they are. If the two nodes belong to different trackers,
    /// the trackers are merged first, so the union becomes one component;
    /// then an entry is recorded in both adjacency lists, so no partial
    /// edge is ever observable.
    pub fn add_neighbor(&self, neighbor: Node<T>) {
        let own_tracker = self.tracker();
        let other_tracker = neighbor.tracker();
        if !own_tracker.same_as(&other_tracker) {
            // Merge: enrol every member of the other tracker in this one,
            // skipping identities already present, then repoint every
            // migrated node's storage at the surviving tracker.
            let migrating = members_read(&other_tracker.members);
            let mut merged = members_read(&own_tracker.members);
            absorb_members(&mut merged, &migrating);
            members_set(&own_tracker.members, merged);
            let mut i: usize = 0;
            while i < migrating.len()
                decreases migrating@.len() - i,
            {
                cell_set_tracker(&migrating[i].cell, own_tracker.clone());
                i += 1;
            }
        }
        let mut links = cell_links(&self.cell);
        attach_link(&mut links, neighbor.downgrade());
        cell_set_links(&self.cell, links);
        let mut back_links = cell_links(&neighbor.cell);
        attach_link(&mut back_links, self.downgrade());
        cell_set_links(&neighbor.cell, back_links);
    }

    /// Unlinks `self` and `other`, idempotently: every entry for the other
    /// node is removed from each side's adjacency list, in both directions,
    /// matched by identity; removing an edge that is not there is a no-op.
    /// The trackers are left as they are: a tracker's membership is a
    /// conservative superset of true connectivity.
    pub fn remove_neighbor(&self, neighbor: Node<T>) {
        let mut links = cell_links(&self.cell);
        detach_link(&mut links, neighbor.id_token());
        cell_set_links(&self.cell, links);
        let mut back_links = cell_links(&neighbor.cell);
        detach_link(&mut back_links, self.id_token());
        cell_set_links(&neighbor.cell, back_links);
    }

    /// A weak reference to this node: it never keeps the node alive, and
    /// it carries the node's identity.
    pub(crate) fn downgrade(&self) -> (w: WeakNode<T>)
        ensures
            w.target_id() == self.ident(),
    {
        WeakNode::new(cell_downgrade(&self.cell), self.id.clone())
    }

    /// The tracker this node's storage currently belongs to.
    fn tracker(&self) -> Tracker<T> {
        cell_tracker(&self.cell)
    }
}

impl<T: Clone + Eq> Clone for Node<T> {
    /// The clone aliases the same storage as the original.
    fn clone(&self) -> (r: Self)
        ensures
            r == *self,
    {
        Node { cell: self.cell.clone(), id: self.id.clone() }
    }
}

impl<T: Clone + Eq> PartialEq for Node<T> {
    /// Equality of handles is storage identity, never value equality: two
    /// distinct nodes carrying equal values are not equal.
    fn eq(&self, other: &Self) -> (r: bool) {
        cell_same(&self.cell, &other.cell) && id_same(&self.id, &other.id)
    }
}

impl<T: Clone + Eq> vstd::std_specs::cmp::PartialEqSpecImpl for Node<T> {
    open spec fn obeys_eq_spec() -> bool {
        true
    }

    open spec fn eq_spec(&self, other: &Self) -> bool {
        *self == *other
    }
}

impl<T: Clone + Eq> Eq for Node<T> {}

impl<T: Clone + Eq> WeakNode<T> {
    /// Resolves the entry to a strong handle; the handle carries the
    /// entry's target identity. Fails fatally if the target's storage was
    /// reclaimed while the entry still stood in a live adjacency list.
    pub(crate) fn upgrade(&self) -> (n: Node<T>)
        ensures
            n.ident() == self.target_id(),
    {
        let id = self.target_token().clone();
        Node { cell: weak_upgrade(&self.weak), id }
    }
}

/// Whether the strong counts of a component's members say that exactly one
/// external handle is left: every member is held only by the tracker (one
/// strong count), except a single member held by the tracker and by the one
/// handle now being released (two strong counts).
pub open spec fn sole_external(counts: Seq<usize>) -> bool {
    exists|i: int|
        0 <= i < counts.len() && counts[i] == 2 && (forall|j: int|
            0 <= j < counts.len() && j != i ==> counts[j] == 1)
}

/// Decides [`sole_external`] over a snapshot of the members' strong counts.
fn counts_show_sole_external(counts: &Vec<usize>) -> (r: bool)
    ensures
        r == sole_external(counts@),
{
    let mut i: usize = 0;
    let mut seen: bool = false;
    let ghost mut two_at: int = 0;
    while i < counts.len()
        invariant
            i <= counts@.len(),
            seen ==> 0 <= two_at < i && counts@[two_at] == 2 && (forall|j: int|
                0 <= j < i && j != two_at ==> counts@[j] == 1),
            !seen ==> forall|j: int| 0 <= j < i ==> counts@[j] == 1,
        decreases counts@.len() - i,
    {
        if counts[i] == 2 {
            if seen {
                proof {
                    assert forall|k: int|
                        0 <= k < counts@.len() implies !(counts@[k] == 2 && (forall|j: int|
                        0 <= j < counts@.len() && j != k ==> counts@[j] == 1)) by {
                        if k == two_at {
                            assert(counts@[i as int] == 2);
                        } else {
                            assert(counts@[two_at] == 2);
                        }
                    }
                }
                return false;
            }
            seen = true;
            proof {
                two_at = i as int;
            }
        } else if counts[i] != 1 {
            proof {
                assert forall|k: int|
                    0 <= k < counts@.len() implies !(counts@[k] == 2 && (forall|j: int|
                    0 <= j < counts@.len() && j != k ==> counts@[j] == 1)) by {
                    if k != i as int {
                        assert(counts@[i as int] != 1);
                    }
                }
            }
            return false;
        }
        i += 1;
    }
    if seen {
        proof {
            assert(counts@[two_at] == 2 && (forall|j: int|
                0 <= j < counts@.len() && j != two_at ==> counts@[j] == 1));
        }
    }
    seen
}

impl<T: Clone + Eq> Node<T> {
    /// The step a handle takes on release: reads the strong counts of the
    /// component's members, and when they show that this handle is the last
    /// external one, empties the tracker's membership list, dropping the
    /// tracker's strong handles on every member and with them the only
    /// remaining strong path to each member's storage.
    fn release(&self) {
        let tracker = cell_tracker(&self.cell);
        let counts = members_strong_counts(&tracker.members);
        if counts_show_sole_external(&counts) {
            members_clear(&tracker.members);
        }
    }
}

impl<T: Clone + Eq> Drop for Node<T> {
    /// Forwards to the verified release step. The forwarding itself is
    /// trusted: Verus asks of a verified `drop` that it open no invariants
    /// and never unwind, and the vector operations on the release path do
    /// not carry those signatures, though the release step opens nothing
    /// and unwinds only on the reentrant access declared a usage fault.
    #[verifier::external_body]
    fn drop(&mut self)
        opens_invariants none
        no_unwind
    {
        self.release()
    }
}

} // verus!
