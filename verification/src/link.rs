//! Adjacency entries and the verified bookkeeping of adjacency lists.
//!
//! An adjacency list is a vector of [`WeakNode`] entries, one per adjacent
//! node, in insertion order and with pairwise distinct targets. The
//! functions here are the whole of the list bookkeeping: membership test,
//! idempotent insertion and removal of every entry for one target. Their
//! contracts pin the result down exactly, and the lemmas state the laws the
//! callers rely on: inserting an edge twice changes nothing the second
//! time, removing an absent edge changes nothing, and removal affects no
//! other target.

use vstd::prelude::*;

use crate::storage::id_same;
use crate::storage::NodeId;
use crate::storage::WeakRef;

verus! {

/// One adjacency entry: a weak reference to the adjacent node's storage,
/// paired with the adjacent node's identity token. The weak reference
/// never keeps the neighbor alive; the token makes the entry's target
/// testable without resolving the reference.
#[verifier::reject_recursive_types(T)]
pub struct WeakNode<T: Clone + Eq> {
    pub(crate) weak: WeakRef<T>,
    pub(crate) id: NodeId,
}

impl<T: Clone + Eq> WeakNode<T> {
    /// The identity of the node this entry refers to.
    pub closed spec fn target_id(self) -> NodeId {
        self.id
    }

    /// An entry made of a weak reference and the identity of its target.
    pub(crate) fn new(weak: WeakRef<T>, id: NodeId) -> (w: Self)
        ensures
            w.target_id() == id,
    {
        WeakNode { weak, id }
    }

    /// The identity token of the node this entry refers to.
    pub(crate) fn target_token(&self) -> (r: &NodeId)
        ensures
            *r == self.target_id(),
    {
        &self.id
    }
}

impl<T: Clone + Eq> Clone for WeakNode<T> {
    fn clone(&self) -> (r: Self)
        ensures
            r == *self,
    {
        WeakNode { weak: self.weak.clone(), id: self.id.clone() }
    }
}

/// Whether `s` holds an entry whose target is `id`.
pub open spec fn linked<T: Clone + Eq>(s: Seq<WeakNode<T>>, id: NodeId) -> bool {
    exists|i: int| 0 <= i < s.len() && s[i].target_id() == id
}

/// `s` with entry `w` appended, unless an entry for `w`'s target is
/// already there.
pub open spec fn attach<T: Clone + Eq>(s: Seq<WeakNode<T>>, w: WeakNode<T>) -> Seq<WeakNode<T>> {
    if linked(s, w.target_id()) {
        s
    } else {
        s.push(w)
    }
}

/// `s` without every entry whose target is `id`, in unchanged order.
pub open spec fn detach<T: Clone + Eq>(s: Seq<WeakNode<T>>, id: NodeId) -> Seq<WeakNode<T>>
    decreases s.len(),
{
    if s.len() == 0 {
        Seq::empty()
    } else if s.last().target_id() == id {
        detach(s.drop_last(), id)
    } else {
        detach(s.drop_last(), id).push(s.last())
    }
}

/// No two entries of `s` share a target.
pub open spec fn distinct_links<T: Clone + Eq>(s: Seq<WeakNode<T>>) -> bool {
    forall|i: int, j: int|
        0 <= i < j < s.len() ==> s[i].target_id() != s[j].target_id()
}

/// Whether the list holds an entry for target `id`.
pub(crate) fn links_contain<T: Clone + Eq>(links: &Vec<WeakNode<T>>, id: &NodeId) -> (r: bool)
    ensures
        r == linked(links@, *id),
{
    let mut i: usize = 0;
    while i < links.len()
        invariant
            i <= links@.len(),
            forall|j: int| 0 <= j < i ==> links@[j].target_id() != *id,
        decreases links@.len() - i,
    {
        if id_same(&links[i].id, id) {
            assert(links@[i as int].target_id() == *id);
            return true;
        }
        i += 1;
    }
    false
}

/// Records the edge to `w`'s target: appends `w` unless an entry for that
/// target is already there.
pub(crate) fn attach_link<T: Clone + Eq>(links: &mut Vec<WeakNode<T>>, w: WeakNode<T>)
    ensures
        final(links)@ == attach(old(links)@, w),
{
    if !links_contain(links, &w.id) {
        links.push(w);
    }
}

/// Clears the edge to target `id`: removes every entry for it, keeping the
/// other entries in order.
pub(crate) fn detach_link<T: Clone + Eq>(links: &mut Vec<WeakNode<T>>, id: &NodeId)
    ensures
        final(links)@ == detach(old(links)@, *id),
{
    let ghost all = links@;
    let mut kept: Vec<WeakNode<T>> = Vec::new();
    let mut i: usize = 0;
    while i < links.len()
        invariant
            i <= links@.len(),
            links@ == all,
            kept@ == detach(all.take(i as int), *id),
        decreases links@.len() - i,
    {
        proof {
            assert(all.take(i + 1).drop_last() =~= all.take(i as int));
            assert(all.take(i + 1).last() == all[i as int]);
        }
        if !id_same(&links[i].id, id) {
            kept.push(links[i].clone());
        }
        i += 1;
    }
    proof {
        assert(all.take(all.len() as int) =~= all);
    }
    *links = kept;
}

/// Recording an edge makes the target linked.
pub proof fn lemma_attach_links<T: Clone + Eq>(s: Seq<WeakNode<T>>, w: WeakNode<T>)
    ensures
        linked(attach(s, w), w.target_id()),
{
    if !linked(s, w.target_id()) {
        assert(attach(s, w)[s.len() as int].target_id() == w.target_id());
    }
}

/// Recording the same edge twice leaves the adjacency state of the first
/// recording: the second entry, whatever weak reference it carries for the
/// same target, changes nothing.
pub proof fn lemma_attach_idempotent<T: Clone + Eq>(
    s: Seq<WeakNode<T>>,
    w: WeakNode<T>,
    w2: WeakNode<T>,
)
    requires
        w2.target_id() == w.target_id(),
    ensures
        attach(attach(s, w), w2) == attach(s, w),
{
    lemma_attach_links(s, w);
}

/// Recording an edge keeps the targets pairwise distinct.
pub proof fn lemma_attach_keeps_distinct<T: Clone + Eq>(s: Seq<WeakNode<T>>, w: WeakNode<T>)
    requires
        distinct_links(s),
    ensures
        distinct_links(attach(s, w)),
{
    if !linked(s, w.target_id()) {
        let t = attach(s, w);
        assert forall|i: int, j: int|
            0 <= i < j < t.len() implies t[i].target_id() != t[j].target_id() by {
            if j == s.len() as int {
                assert(t[j] == w);
                if t[i].target_id() == w.target_id() {
                    assert(linked(s, w.target_id()));
                }
            }
        }
    }
}

/// Recording an edge leaves every other target exactly as linked as it was.
pub proof fn lemma_attach_keeps_others<T: Clone + Eq>(
    s: Seq<WeakNode<T>>,
    w: WeakNode<T>,
    other: NodeId,
)
    requires
        other != w.target_id(),
    ensures
        linked(attach(s, w), other) == linked(s, other),
{
    let t = attach(s, w);
    if linked(t, other) {
        let i = choose|i: int| 0 <= i < t.len() && t[i].target_id() == other;
        assert(i < s.len() as int);
        assert(linked(s, other));
    }
    if linked(s, other) {
        let i = choose|i: int| 0 <= i < s.len() && s[i].target_id() == other;
        assert(t[i].target_id() == other);
    }
}

/// After a removal, the removed target is not linked.
pub proof fn lemma_detach_unlinks<T: Clone + Eq>(s: Seq<WeakNode<T>>, id: NodeId)
    ensures
        !linked(detach(s, id), id),
    decreases s.len(),
{
    if s.len() > 0 {
        lemma_detach_unlinks(s.drop_last(), id);
        if s.last().target_id() != id {
            let t = detach(s, id);
            let r = detach(s.drop_last(), id);
            if linked(t, id) {
                let i = choose|i: int| 0 <= i < t.len() && t[i].target_id() == id;
                assert(i < r.len() as int);
                assert(linked(r, id));
            }
        }
    }
}

/// Removing an edge that is not there is a no-op.
pub proof fn lemma_detach_absent_noop<T: Clone + Eq>(s: Seq<WeakNode<T>>, id: NodeId)
    requires
        !linked(s, id),
    ensures
        detach(s, id) == s,
    decreases s.len(),
{
    if s.len() == 0 {
        assert(detach(s, id) =~= s);
    } else {
        assert(s.last() == s[s.len() - 1]);
        assert(s.last().target_id() != id);
        assert forall|i: int| 0 <= i < s.drop_last().len() implies s.drop_last()[i].target_id()
            != id by {
            assert(s.drop_last()[i] == s[i]);
        }
        lemma_detach_absent_noop(s.drop_last(), id);
        assert(detach(s, id) =~= s);
    }
}

/// Removing the same edge twice removes it once and leaves it removed.
pub proof fn lemma_detach_idempotent<T: Clone + Eq>(s: Seq<WeakNode<T>>, id: NodeId)
    ensures
        detach(detach(s, id), id) == detach(s, id),
{
    lemma_detach_unlinks(s, id);
    lemma_detach_absent_noop(detach(s, id), id);
}

/// Removal of one target leaves every other target exactly as linked as it
/// was.
pub proof fn lemma_detach_keeps_others<T: Clone + Eq>(
    s: Seq<WeakNode<T>>,
    id: NodeId,
    other: NodeId,
)
    requires
        other != id,
    ensures
        linked(detach(s, id), other) == linked(s, other),
    decreases s.len(),
{
    if s.len() > 0 {
        lemma_detach_keeps_others(s.drop_last(), id, other);
        let t = detach(s, id);
        let r = detach(s.drop_last(), id);
        if linked(t, other) {
            let i = choose|i: int| 0 <= i < t.len() && t[i].target_id() == other;
            if s.last().target_id() != id && i == t.len() - 1 {
                assert(t[i] == s.last());
                assert(s[s.len() - 1].target_id() == other);
                assert(linked(s, other));
            } else {
                assert(r[i].target_id() == other);
                assert(linked(r, other));
                lemma_linked_in_whole(s, other);
            }
        }
        if linked(s, other) {
            let i = choose|i: int| 0 <= i < s.len() && s[i].target_id() == other;
            if i == s.len() - 1 {
                assert(s.last().target_id() == other);
                assert(t[t.len() - 1].target_id() == other);
                assert(linked(t, other));
            } else {
                assert(s.drop_last()[i].target_id() == other);
                assert(linked(s.drop_last(), other));
                let k = choose|k: int| 0 <= k < r.len() && r[k].target_id() == other;
                assert(t[k].target_id() == other);
                assert(linked(t, other));
            }
        }
    }
}

/// A target linked among all entries but the last is linked in the whole
/// list.
proof fn lemma_linked_in_whole<T: Clone + Eq>(s: Seq<WeakNode<T>>, other: NodeId)
    requires
        s.len() > 0,
        linked(s.drop_last(), other),
    ensures
        linked(s, other),
{
    let i = choose|i: int| 0 <= i < s.drop_last().len() && s.drop_last()[i].target_id() == other;
    assert(s[i].target_id() == other);
}

/// Removal keeps the targets pairwise distinct.
pub proof fn lemma_detach_keeps_distinct<T: Clone + Eq>(s: Seq<WeakNode<T>>, id: NodeId)
    requires
        distinct_links(s),
    ensures
        distinct_links(detach(s, id)),
    decreases s.len(),
{
    if s.len() > 0 {
        assert forall|i: int, j: int|
            0 <= i < j < s.drop_last().len() implies s.drop_last()[i].target_id()
            != s.drop_last()[j].target_id() by {
            assert(s.drop_last()[i] == s[i]);
            assert(s.drop_last()[j] == s[j]);
        }
        lemma_detach_keeps_distinct(s.drop_last(), id);
        if s.last().target_id() != id {
            let t = detach(s, id);
            let r = detach(s.drop_last(), id);
            lemma_detach_is_subset(s.drop_last(), id);
            assert forall|i: int, j: int|
                0 <= i < j < t.len() implies t[i].target_id() != t[j].target_id() by {
                if j == t.len() - 1 {
                    assert(t[j] == s.last());
                    assert(s.drop_last().contains(t[i]));
                    let k = choose|k: int|
                        0 <= k < s.drop_last().len() && s.drop_last()[k] == t[i];
                    assert(s[k] == t[i]);
                    assert(s[k].target_id() != s[s.len() - 1].target_id());
                } else {
                    assert(t[i] == r[i]);
                    assert(t[j] == r[j]);
                }
            }
        }
    }
}

/// One edge addition keeps adjacency symmetric: recording the edge on both
/// sides, as `add_neighbor` does, leaves each side linked to the other —
/// never one direction without the other.
pub proof fn lemma_edge_added_symmetrically<T: Clone + Eq>(
    own: Seq<WeakNode<T>>,
    back: Seq<WeakNode<T>>,
    to_other: WeakNode<T>,
    to_self: WeakNode<T>,
)
    ensures
        linked(attach(own, to_other), to_other.target_id()),
        linked(attach(back, to_self), to_self.target_id()),
{
    lemma_attach_links(own, to_other);
    lemma_attach_links(back, to_self);
}

/// One edge removal keeps adjacency symmetric: clearing the edge on both
/// sides, as `remove_neighbor` does, leaves neither side linked to the
/// other — never one direction still recorded.
pub proof fn lemma_edge_removed_symmetrically<T: Clone + Eq>(
    own: Seq<WeakNode<T>>,
    back: Seq<WeakNode<T>>,
    other_id: NodeId,
    self_id: NodeId,
)
    ensures
        !linked(detach(own, other_id), other_id),
        !linked(detach(back, self_id), self_id),
{
    lemma_detach_unlinks(own, other_id);
    lemma_detach_unlinks(back, self_id);
}

/// Every entry of the removal's result already stood in the list.
pub proof fn lemma_detach_is_subset<T: Clone + Eq>(s: Seq<WeakNode<T>>, id: NodeId)
    ensures
        forall|i: int| 0 <= i < detach(s, id).len() ==> s.contains(#[trigger] detach(s, id)[i]),
    decreases s.len(),
{
    if s.len() > 0 {
        lemma_detach_is_subset(s.drop_last(), id);
        let t = detach(s, id);
        let r = detach(s.drop_last(), id);
        assert forall|i: int| 0 <= i < t.len() implies s.contains(#[trigger] t[i]) by {
            if i < r.len() {
                assert(s.drop_last().contains(r[i]));
                let j = choose|j: int| 0 <= j < s.drop_last().len() && s.drop_last()[j] == r[i];
                assert(s[j] == t[i]);
            } else {
                assert(s[s.len() - 1] == t[i]);
            }
        }
    }
}

} // verus!
