//! The trusted shell around the shared, interior-mutable node storage.
//!
//! Everything the rest of the crate knows about shared storage it learns
//! from the contracts in this module. The types here wrap `Rc`, `Weak` and
//! `RefCell`; Verus sees them as opaque values. The reading that makes the
//! contracts true is: the opaque value of a cell (or of an identity token)
//! stands for the identity of its allocation, never for its contents. Under
//! that reading, `Rc::ptr_eq` decides equality of the opaque values exactly,
//! and `Rc::clone` preserves them. No contract here says anything about what
//! a cell currently holds: any alias may change the contents between two
//! reads, so every read returns an arbitrary value of the right type, and
//! the verified callers must hold for every such value.
//!
//! The std types themselves cannot be declared to Verus here, which is why
//! each shell type is opaque instead: `Weak` carries an allocator
//! parameter, the `RefCell` instantiations are recursive through the node
//! type, and an `Rc`'s verified value is its contents, which would make
//! every identity token equal to every other.
//!
//! Borrows of a cell are taken and released inside one function of this
//! module and are never held across a call into caller-supplied code, so
//! the only way a borrow here can fail is the reentrant access that the
//! crate's documentation declares a usage fault.

use std::cell::RefCell;
use std::rc::Rc;
use std::rc::Weak;

use vstd::prelude::*;

use crate::link::WeakNode;
use crate::node::Node;
use crate::node::RawNode;
use crate::registry::Tracker;

verus! {

/// Identity token of one node. Two `NodeId` values are equal exactly when
/// they were cloned from the same original token, so a token stands for the
/// identity of the node it was minted for.
#[verifier::external_body]
pub struct NodeId {
    token: Rc<()>,
}

impl Clone for NodeId {
    /// Relies on `Rc::clone`: the clone points at the same allocation as
    /// the original, so it carries the same identity.
    #[verifier::external_body]
    fn clone(&self) -> (r: Self)
        ensures
            r == *self,
    {
        NodeId { token: Rc::clone(&self.token) }
    }
}

/// Mints the identity token of a freshly created node.
/// Relies on `Rc::new`: the token is a new allocation of its own.
#[verifier::external_body]
pub(crate) fn id_mint() -> NodeId {
    NodeId { token: Rc::new(()) }
}

/// Relies on `Rc::ptr_eq`: true exactly when the two tokens point at the
/// same allocation, which is what equality of `NodeId` values means.
#[verifier::external_body]
pub(crate) fn id_same(a: &NodeId, b: &NodeId) -> (r: bool)
    ensures
        r == (*a == *b),
{
    Rc::ptr_eq(&a.token, &b.token)
}

/// Shared, interior-mutable storage of one node: a strong handle on the
/// allocation that holds the node's value, adjacency list and tracker.
#[verifier::external_body]
#[verifier::reject_recursive_types(T)]
pub struct NodeCell<T: Clone + Eq> {
    rc: Rc<RefCell<RawNode<T>>>,
}

impl<T: Clone + Eq> Clone for NodeCell<T> {
    /// Relies on `Rc::clone`: the clone is a strong handle on the same
    /// allocation, so it has the same identity.
    #[verifier::external_body]
    fn clone(&self) -> (r: Self)
        ensures
            r == *self,
    {
        NodeCell { rc: Rc::clone(&self.rc) }
    }
}

/// Allocates fresh storage holding `raw`.
/// Relies on `Rc::new` and `RefCell::new`: a new allocation of its own.
#[verifier::external_body]
pub(crate) fn cell_new<T: Clone + Eq>(raw: RawNode<T>) -> NodeCell<T> {
    NodeCell { rc: Rc::new(RefCell::new(raw)) }
}

/// Relies on `Rc::ptr_eq`: true exactly when the two handles point at the
/// same allocation, which is what equality of `NodeCell` values means.
#[verifier::external_body]
pub(crate) fn cell_same<T: Clone + Eq>(a: &NodeCell<T>, b: &NodeCell<T>) -> (r: bool)
    ensures
        r == (*a == *b),
{
    Rc::ptr_eq(&a.rc, &b.rc)
}

/// A duplicate of the value currently stored in the cell.
/// Relies on `RefCell::borrow`; the contents are shared and mutable, so
/// nothing can be promised about which value comes back.
#[verifier::external_body]
pub(crate) fn cell_value<T: Clone + Eq>(c: &NodeCell<T>) -> T {
    RefCell::borrow(&c.rc).value.clone()
}

/// Replaces the value stored in the cell.
/// Relies on `RefCell::borrow_mut`; the replaced value is dropped after
/// the borrow is released.
#[verifier::external_body]
pub(crate) fn cell_set_value<T: Clone + Eq>(c: &NodeCell<T>, v: T) {
    let old_value = std::mem::replace(&mut RefCell::borrow_mut(&c.rc).value, v);
    drop(old_value);
}

/// A snapshot of the adjacency list currently stored in the cell.
/// Relies on `RefCell::borrow`; the contents are shared and mutable, so
/// nothing can be promised about which entries come back.
#[verifier::external_body]
pub(crate) fn cell_links<T: Clone + Eq>(c: &NodeCell<T>) -> Vec<WeakNode<T>> {
    RefCell::borrow(&c.rc).neighbors.clone()
}

/// Replaces the adjacency list stored in the cell.
/// Relies on `RefCell::borrow_mut`; the replaced list is dropped after the
/// borrow is released.
#[verifier::external_body]
pub(crate) fn cell_set_links<T: Clone + Eq>(c: &NodeCell<T>, links: Vec<WeakNode<T>>) {
    let old_links = std::mem::replace(&mut RefCell::borrow_mut(&c.rc).neighbors, links);
    drop(old_links);
}

/// The tracker the node currently belongs to.
/// Relies on `RefCell::borrow`; trackers are repointed when components
/// merge, so nothing can be promised about which one comes back.
#[verifier::external_body]
pub(crate) fn cell_tracker<T: Clone + Eq>(c: &NodeCell<T>) -> Tracker<T> {
    RefCell::borrow(&c.rc).tracker.clone()
}

/// Repoints the node at `tracker`.
/// Relies on `RefCell::borrow_mut`; the replaced tracker handle is dropped
/// after the borrow is released.
#[verifier::external_body]
pub(crate) fn cell_set_tracker<T: Clone + Eq>(c: &NodeCell<T>, tracker: Tracker<T>) {
    let old_tracker = std::mem::replace(&mut RefCell::borrow_mut(&c.rc).tracker, tracker);
    drop(old_tracker);
}

/// A weak handle on the cell's allocation.
/// Relies on `Rc::downgrade`: the weak handle does not keep the allocation
/// alive.
#[verifier::external_body]
pub(crate) fn cell_downgrade<T: Clone + Eq>(c: &NodeCell<T>) -> WeakRef<T> {
    WeakRef { weak: Rc::downgrade(&c.rc) }
}

/// A non-owning reference to a node's storage. Holding one never keeps the
/// storage alive; resolving one fails if the storage has been reclaimed.
#[verifier::external_body]
#[verifier::reject_recursive_types(T)]
pub struct WeakRef<T: Clone + Eq> {
    weak: Weak<RefCell<RawNode<T>>>,
}

impl<T: Clone + Eq> Clone for WeakRef<T> {
    /// Relies on `Weak::clone`: the clone points at the same allocation as
    /// the original, so it has the same identity.
    #[verifier::external_body]
    fn clone(&self) -> (r: Self)
        ensures
            r == *self,
    {
        WeakRef { weak: Weak::clone(&self.weak) }
    }
}

/// Resolves a weak reference to a strong handle on its storage.
/// Relies on `Weak::upgrade`. An adjacency entry of a live node always
/// denotes live storage while the component's tracker is intact; a failure
/// here means that invariant was broken, and is signalled as a fatal fault
/// rather than masked.
#[verifier::external_body]
pub(crate) fn weak_upgrade<T: Clone + Eq>(w: &WeakRef<T>) -> NodeCell<T> {
    NodeCell {
        rc: Weak::upgrade(&w.weak).expect("a listed neighbor's storage should still be alive"),
    }
}

/// The shared membership list of one tracker: every node known to belong to
/// a connected component, kept alive by one strong handle each.
#[verifier::external_body]
#[verifier::reject_recursive_types(T)]
pub struct MemberCell<T: Clone + Eq> {
    rc: Rc<RefCell<Vec<Node<T>>>>,
}

impl<T: Clone + Eq> Clone for MemberCell<T> {
    /// Relies on `Rc::clone`: the clone is a strong handle on the same
    /// allocation, so it has the same identity.
    #[verifier::external_body]
    fn clone(&self) -> (r: Self)
        ensures
            r == *self,
    {
        MemberCell { rc: Rc::clone(&self.rc) }
    }
}

/// Allocates a fresh, empty membership list.
/// Relies on `Rc::new` and `RefCell::new`: a new allocation of its own.
#[verifier::external_body]
pub(crate) fn members_new<T: Clone + Eq>() -> MemberCell<T> {
    MemberCell { rc: Rc::new(RefCell::new(Vec::new())) }
}

/// Relies on `Rc::ptr_eq`: true exactly when the two handles point at the
/// same allocation, which is what equality of `MemberCell` values means.
#[verifier::external_body]
pub(crate) fn members_same<T: Clone + Eq>(a: &MemberCell<T>, b: &MemberCell<T>) -> (r: bool)
    ensures
        r == (*a == *b),
{
    Rc::ptr_eq(&a.rc, &b.rc)
}

/// A snapshot of the membership list: one fresh strong handle per member.
/// Relies on `RefCell::borrow`; the list is shared and mutable, so nothing
/// can be promised about which members come back.
#[verifier::external_body]
pub(crate) fn members_read<T: Clone + Eq>(c: &MemberCell<T>) -> Vec<Node<T>> {
    RefCell::borrow(&c.rc).clone()
}

/// Replaces the membership list.
/// Relies on `RefCell::borrow_mut`; the replaced list is dropped after the
/// borrow is released.
#[verifier::external_body]
pub(crate) fn members_set<T: Clone + Eq>(c: &MemberCell<T>, members: Vec<Node<T>>) {
    let old_members = c.rc.replace(members);
    drop(old_members);
}

/// The current strong count of every member's storage, in membership order,
/// taken without creating any new handle. Relies on `RefCell::borrow` and
/// `Rc::strong_count`; the counts are shared state, so nothing can be
/// promised about them.
#[verifier::external_body]
pub(crate) fn members_strong_counts<T: Clone + Eq>(c: &MemberCell<T>) -> Vec<usize> {
    RefCell::borrow(&c.rc).iter().map(|n| Rc::strong_count(&n.cell.rc)).collect()
}

/// Empties the membership list, releasing the tracker's strong handle on
/// every member. Relies on `RefCell::replace`: the borrow is released
/// before the old list is dropped, so the members' own teardown runs with
/// the list already empty.
#[verifier::external_body]
pub(crate) fn members_clear<T: Clone + Eq>(c: &MemberCell<T>) {
    let old_members = c.rc.replace(Vec::new());
    drop(old_members);
}

} // verus!
