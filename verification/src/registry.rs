//! The per-component tracker and the verified bookkeeping of its
//! membership list.
//!
//! Every node belongs to exactly one tracker: the shared registry of all
//! nodes known to be in its connected component. The registry holds one
//! strong handle per member, deduplicated by identity, and is the only
//! strong path from node to node; it is what keeps a component alive while
//! any one of its nodes is externally held. The functions here are the
//! whole of the membership bookkeeping: enrolment of one node and
//! absorption of another tracker's members, both idempotent and both
//! deduplicated by identity. Their contracts pin the result down exactly,
//! and the lemmas state the merge laws: a merge unites the two
//! memberships, keeps identities pairwise distinct, and can run again
//! without duplicating or losing members.

use vstd::prelude::*;

use crate::node::Node;
use crate::storage::id_same;
use crate::storage::members_new;
use crate::storage::members_read;
use crate::storage::members_same;
use crate::storage::members_set;
use crate::storage::MemberCell;
use crate::storage::NodeId;

verus! {

/// The shared registry of one connected component: one strong handle per
/// member node. All nodes of a component share one registry; a tracker
/// value is a handle on it.
#[verifier::reject_recursive_types(T)]
pub(crate) struct Tracker<T: Clone + Eq> {
    pub(crate) members: MemberCell<T>,
}

impl<T: Clone + Eq> Clone for Tracker<T> {
    fn clone(&self) -> (r: Self)
        ensures
            r == *self,
    {
        Tracker { members: self.members.clone() }
    }
}

impl<T: Clone + Eq> Tracker<T> {
    /// A fresh registry with no members yet.
    pub(crate) fn new() -> Tracker<T> {
        Tracker { members: members_new() }
    }

    /// Whether the two values are handles on the same registry.
    pub(crate) fn same_as(&self, other: &Tracker<T>) -> (r: bool)
        ensures
            r == (*self == *other),
    {
        members_same(&self.members, &other.members)
    }

    /// Registers `node`, unless a node of the same identity is already a
    /// member.
    pub(crate) fn add(&self, node: Node<T>) {
        let mut current = members_read(&self.members);
        enroll_member(&mut current, node);
        members_set(&self.members, current);
    }
}

/// Whether `s` holds a member of identity `id`.
pub open spec fn enrolled<T: Clone + Eq>(s: Seq<Node<T>>, id: NodeId) -> bool {
    exists|i: int| 0 <= i < s.len() && s[i].ident() == id
}

/// `s` with `n` appended, unless a member of `n`'s identity is already
/// there.
pub open spec fn enroll<T: Clone + Eq>(s: Seq<Node<T>>, n: Node<T>) -> Seq<Node<T>> {
    if enrolled(s, n.ident()) {
        s
    } else {
        s.push(n)
    }
}

/// `s` with the members of `extra` enrolled one by one, in order.
pub open spec fn absorb<T: Clone + Eq>(s: Seq<Node<T>>, extra: Seq<Node<T>>) -> Seq<Node<T>>
    decreases extra.len(),
{
    if extra.len() == 0 {
        s
    } else {
        absorb(enroll(s, extra.first()), extra.drop_first())
    }
}

/// No two members of `s` share an identity.
pub open spec fn distinct_members<T: Clone + Eq>(s: Seq<Node<T>>) -> bool {
    forall|i: int, j: int| 0 <= i < j < s.len() ==> s[i].ident() != s[j].ident()
}

/// Whether the list holds a member of identity `id`.
pub(crate) fn members_contain<T: Clone + Eq>(members: &Vec<Node<T>>, id: &NodeId) -> (r: bool)
    ensures
        r == enrolled(members@, *id),
{
    let mut i: usize = 0;
    while i < members.len()
        invariant
            i <= members@.len(),
            forall|j: int| 0 <= j < i ==> members@[j].ident() != *id,
        decreases members@.len() - i,
    {
        if id_same(members[i].id_token(), id) {
            assert(members@[i as int].ident() == *id);
            return true;
        }
        i += 1;
    }
    false
}

/// Enrols `n`: appends it unless a member of the same identity is already
/// there.
pub(crate) fn enroll_member<T: Clone + Eq>(members: &mut Vec<Node<T>>, n: Node<T>)
    ensures
        final(members)@ == enroll(old(members)@, n),
{
    if !members_contain(members, n.id_token()) {
        members.push(n);
    }
}

/// Enrols every member of `extra`, in order, skipping those already there.
pub(crate) fn absorb_members<T: Clone + Eq>(members: &mut Vec<Node<T>>, extra: &Vec<Node<T>>)
    ensures
        final(members)@ == absorb(old(members)@, extra@),
{
    let ghost initial = members@;
    let mut i: usize = 0;
    while i < extra.len()
        invariant
            i <= extra@.len(),
            members@ == absorb(initial, extra@.take(i as int)),
        decreases extra@.len() - i,
    {
        proof {
            lemma_absorb_push(initial, extra@.take(i as int), extra@[i as int]);
            assert(extra@.take(i + 1) =~= extra@.take(i as int).push(extra@[i as int]));
        }
        enroll_member(members, extra[i].clone());
        i += 1;
    }
    proof {
        assert(extra@.take(extra@.len() as int) =~= extra@);
    }
}

/// Absorbing one more member is one more enrolment.
proof fn lemma_absorb_push<T: Clone + Eq>(s: Seq<Node<T>>, extra: Seq<Node<T>>, n: Node<T>)
    ensures
        absorb(s, extra.push(n)) == enroll(absorb(s, extra), n),
    decreases extra.len(),
{
    if extra.len() == 0 {
        assert(extra.push(n).drop_first() =~= Seq::<Node<T>>::empty());
        assert(extra.push(n).first() == n);
        assert(absorb(s, extra.push(n)) == absorb(enroll(s, n), extra.push(n).drop_first()));
        assert(absorb(enroll(s, n), Seq::<Node<T>>::empty()) == enroll(s, n));
        assert(absorb(s, extra) == s);
    } else {
        assert(extra.push(n).first() == extra.first());
        assert(extra.push(n).drop_first() =~= extra.drop_first().push(n));
        lemma_absorb_push(enroll(s, extra.first()), extra.drop_first(), n);
        assert(absorb(s, extra.push(n)) == absorb(
            enroll(s, extra.first()),
            extra.drop_first().push(n),
        ));
        assert(absorb(s, extra) == absorb(enroll(s, extra.first()), extra.drop_first()));
    }
}

/// A merge unites the memberships: an identity is enrolled afterwards
/// exactly when it was enrolled in one of the two lists.
pub proof fn lemma_absorb_unites<T: Clone + Eq>(s: Seq<Node<T>>, extra: Seq<Node<T>>, id: NodeId)
    ensures
        enrolled(absorb(s, extra), id) == (enrolled(s, id) || enrolled(extra, id)),
    decreases extra.len(),
{
    if extra.len() == 0 {
        assert(!enrolled(extra, id));
    } else {
        let stepped = enroll(s, extra.first());
        lemma_absorb_unites(stepped, extra.drop_first(), id);
        lemma_enroll_enrolls(s, extra.first(), id);
        if enrolled(extra, id) {
            let i = choose|i: int| 0 <= i < extra.len() && extra[i].ident() == id;
            if i == 0 {
                assert(extra.first().ident() == id);
            } else {
                assert(extra.drop_first()[i - 1].ident() == id);
                assert(enrolled(extra.drop_first(), id));
            }
        }
        if enrolled(extra.drop_first(), id) {
            let i = choose|i: int|
                0 <= i < extra.drop_first().len() && extra.drop_first()[i].ident() == id;
            assert(extra[i + 1].ident() == id);
        }
    }
}

/// Enrolment makes exactly the enrolled identity linked, and keeps every
/// other identity as it was.
pub proof fn lemma_enroll_enrolls<T: Clone + Eq>(s: Seq<Node<T>>, n: Node<T>, id: NodeId)
    ensures
        enrolled(enroll(s, n), id) == (enrolled(s, id) || id == n.ident()),
{
    let t = enroll(s, n);
    if !enrolled(s, n.ident()) {
        assert(t[s.len() as int] == n);
        if enrolled(t, id) {
            let i = choose|i: int| 0 <= i < t.len() && t[i].ident() == id;
            if i < s.len() {
                assert(enrolled(s, id));
            }
        }
        if enrolled(s, id) {
            let i = choose|i: int| 0 <= i < s.len() && s[i].ident() == id;
            assert(t[i].ident() == id);
        }
    }
}

/// Enrolling the same identity twice changes nothing the second time.
pub proof fn lemma_enroll_idempotent<T: Clone + Eq>(s: Seq<Node<T>>, n: Node<T>, m: Node<T>)
    requires
        m.ident() == n.ident(),
    ensures
        enroll(enroll(s, n), m) == enroll(s, n),
{
    lemma_enroll_enrolls(s, n, n.ident());
}

/// Absorbing a membership whose identities are all enrolled already is a
/// no-op.
pub proof fn lemma_absorb_noop<T: Clone + Eq>(s: Seq<Node<T>>, extra: Seq<Node<T>>)
    requires
        forall|i: int| 0 <= i < extra.len() ==> enrolled(s, #[trigger] extra[i].ident()),
    ensures
        absorb(s, extra) == s,
    decreases extra.len(),
{
    if extra.len() > 0 {
        assert(extra[0] == extra.first());
        assert(enrolled(s, extra.first().ident()));
        assert forall|i: int| 0 <= i < extra.drop_first().len() implies enrolled(
            s,
            #[trigger] extra.drop_first()[i].ident(),
        ) by {
            assert(extra.drop_first()[i] == extra[i + 1]);
        }
        lemma_absorb_noop(s, extra.drop_first());
    }
}

/// Merging the same membership again changes nothing: a merge can run
/// repeatedly as edges accumulate without duplicating or losing members.
pub proof fn lemma_absorb_idempotent<T: Clone + Eq>(s: Seq<Node<T>>, extra: Seq<Node<T>>)
    ensures
        absorb(absorb(s, extra), extra) == absorb(s, extra),
{
    let merged = absorb(s, extra);
    assert forall|i: int| 0 <= i < extra.len() implies enrolled(
        merged,
        #[trigger] extra[i].ident(),
    ) by {
        lemma_absorb_unites(s, extra, extra[i].ident());
    }
    lemma_absorb_noop(merged, extra);
}

/// A merge keeps the member identities pairwise distinct.
pub proof fn lemma_absorb_keeps_distinct<T: Clone + Eq>(s: Seq<Node<T>>, extra: Seq<Node<T>>)
    requires
        distinct_members(s),
    ensures
        distinct_members(absorb(s, extra)),
    decreases extra.len(),
{
    if extra.len() > 0 {
        lemma_enroll_keeps_distinct(s, extra.first());
        lemma_absorb_keeps_distinct(enroll(s, extra.first()), extra.drop_first());
    }
}

/// An enrolment keeps the member identities pairwise distinct.
pub proof fn lemma_enroll_keeps_distinct<T: Clone + Eq>(s: Seq<Node<T>>, n: Node<T>)
    requires
        distinct_members(s),
    ensures
        distinct_members(enroll(s, n)),
{
    if !enrolled(s, n.ident()) {
        let t = enroll(s, n);
        assert forall|i: int, j: int|
            0 <= i < j < t.len() implies t[i].ident() != t[j].ident() by {
            if j == s.len() as int {
                assert(t[j] == n);
                if t[i].ident() == n.ident() {
                    assert(enrolled(s, n.ident()));
                }
            }
        }
    }
}

} // verus!
