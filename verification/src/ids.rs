//! Plain values that name the things a conversation is about.
use vstd::prelude::*;

verus! {

/// An identifier of a conversation, a message, a community, a role, a channel or an invite.
pub type Uuid = u128;

/// A point in time, in nanoseconds since the Unix epoch.
pub type Timestamp = i64;

/// A decentralised identity: the 256 bits of its public key.
#[derive(Clone, Copy, PartialEq, Eq, Structural, Debug, Hash)]
pub struct Did {
    pub hi: u128,
    pub lo: u128,
}

/// A node of the network: the 256 bits of its public key.
#[derive(Clone, Copy, PartialEq, Eq, Structural, Debug, Hash)]
pub struct PeerId {
    pub hi: u128,
    pub lo: u128,
}

/// A content identifier: the codec of the block and the 256 bits of its digest.
#[derive(Clone, Copy, PartialEq, Eq, Structural, Debug, Hash)]
pub struct Cid {
    pub codec: u64,
    pub hi: u128,
    pub lo: u128,
}

/// The identities of a list other than one.
pub open spec fn without(list: Seq<Did>, did: Did) -> Seq<Did> {
    list.filter(|d: Did| d != did)
}

/// Whether a list holds an identity.
pub fn contains_did(list: &Vec<Did>, did: Did) -> (r: bool)
    ensures
        r == list@.contains(did),
{
    let mut i: usize = 0;
    while i < list.len()
        invariant
            i <= list@.len(),
            forall|j: int| 0 <= j < i ==> list@[j] != did,
        decreases list@.len() - i,
    {
        if list[i] == did {
            assert(list@[i as int] == did);
            return true;
        }
        i = i + 1;
    }
    false
}

/// The identities of a list other than one, in order.
pub fn without_did(list: &Vec<Did>, did: Did) -> (r: Vec<Did>)
    ensures
        r@ == without(list@, did),
{
    let mut r: Vec<Did> = Vec::new();
    let mut i: usize = 0;
    proof {
        reveal(Seq::filter);
        assert(list@.take(0) == Seq::<Did>::empty());
    }
    while i < list.len()
        invariant
            i <= list@.len(),
            r@ == without(list@.take(i as int), did),
        decreases list@.len() - i,
    {
        proof {
            reveal(Seq::filter);
            assert(list@.take(i + 1).drop_last() == list@.take(i as int));
            assert(list@.take(i + 1).last() == list@[i as int]);
        }
        if list[i] != did {
            r.push(list[i]);
        }
        i = i + 1;
    }
    assert(list@.take(list@.len() as int) == list@);
    r
}

/// A copy of a list.
pub fn copy_dids(list: &Vec<Did>) -> (r: Vec<Did>)
    ensures
        r@ == list@,
{
    let mut r: Vec<Did> = Vec::new();
    let mut i: usize = 0;
    while i < list.len()
        invariant
            i <= list@.len(),
            r@ == list@.take(i as int),
        decreases list@.len() - i,
    {
        r.push(list[i]);
        assert(list@.take(i + 1) == list@.take(i as int).push(list@[i as int]));
        i = i + 1;
    }
    assert(list@.take(list@.len() as int) == list@);
    r
}

/// What `without` holds: every identity of the list but the one.
pub proof fn without_members(list: Seq<Did>, did: Did, other: Did)
    ensures
        without(list, did).contains(other) <==> list.contains(other) && other != did,
    decreases list.len(),
{
    reveal(Seq::filter);
    if list.len() > 0 {
        let head = list.drop_last();
        without_members(head, did, other);
        assert(list.contains(other) <==> head.contains(other) || list.last() == other) by {
            assert(list == head.push(list.last()));
            if head.contains(other) {
                let i = choose|i: int| 0 <= i < head.len() && head[i] == other;
                assert(list[i] == other);
            }
            if list.last() == other {
                assert(list[list.len() - 1] == other);
            }
            if list.contains(other) {
                let i = choose|i: int| 0 <= i < list.len() && list[i] == other;
                if i < head.len() {
                    assert(head[i] == other);
                }
            }
        }
        let f = without(head, did);
        if list.last() != did {
            assert(without(list, did) == f.push(list.last()));
            if f.contains(other) {
                let i = choose|i: int| 0 <= i < f.len() && f[i] == other;
                assert(f.push(list.last())[i] == other);
            }
            assert(f.push(list.last())[f.len() as int] == list.last());
            if f.push(list.last()).contains(other) {
                let i = choose|i: int|
                    0 <= i < f.push(list.last()).len() && f.push(list.last())[i] == other;
                if i < f.len() {
                    assert(f[i] == other);
                }
            }
        } else {
            assert(without(list, did) == f);
        }
    } else {
        assert(without(list, did) == list);
    }
}

/// Taking an identity out of a list that does not hold it changes nothing.
pub proof fn without_absent(list: Seq<Did>, did: Did)
    requires
        !list.contains(did),
    ensures
        without(list, did) == list,
    decreases list.len(),
{
    reveal(Seq::filter);
    if list.len() > 0 {
        let head = list.drop_last();
        assert(!head.contains(did)) by {
            if head.contains(did) {
                let i = choose|i: int| 0 <= i < head.len() && head[i] == did;
                assert(list[i] == did);
            }
        }
        without_absent(head, did);
        assert(list[list.len() - 1] == list.last());
        assert(list == head.push(list.last()));
    }
}

/// Leaving an identity out of two lists, one behind the other, is leaving it out of each.
pub proof fn without_goes_by_parts(a: Seq<Did>, b: Seq<Did>, did: Did)
    ensures
        without(a + b, did) == without(a, did) + without(b, did),
    decreases b.len(),
{
    reveal(Seq::filter);
    if b.len() == 0 {
        assert(a + b == a);
        assert(without(a, did) + without(b, did) == without(a, did));
    } else {
        let head = b.drop_last();
        without_goes_by_parts(a, head, did);
        assert((a + b).drop_last() == a + head);
        assert((a + b).last() == b.last());
        assert(without(a, did) + without(b, did) == without(a + b, did));
    }
}

/// Leaving out an identity that a list holds once takes it out of its place, and leaves the others in
/// their order.
pub proof fn without_takes_out(list: Seq<Did>, did: Did, k: int)
    requires
        0 <= k < list.len(),
        list[k] == did,
        forall|j: int| 0 <= j < list.len() && j != k ==> #[trigger] list[j] != did,
    ensures
        without(list, did) == list.take(k) + list.skip(k + 1),
{
    let before = list.take(k);
    let after = list.skip(k + 1);
    assert(list == (before + seq![did]) + after);
    without_goes_by_parts(before + seq![did], after, did);
    without_goes_by_parts(before, seq![did], did);
    assert(!before.contains(did));
    assert(!after.contains(did)) by {
        if after.contains(did) {
            let j = choose|j: int| 0 <= j < after.len() && after[j] == did;
            assert(list[k + 1 + j] == did);
        }
    }
    without_absent(before, did);
    without_absent(after, did);
    reveal(Seq::filter);
    assert(seq![did].drop_last() == Seq::<Did>::empty());
    assert(without(Seq::<Did>::empty(), did) == Seq::<Did>::empty());
    assert(without(seq![did], did) == Seq::<Did>::empty());
    assert((before + Seq::<Did>::empty()) + after == before + after);
}

} // verus!
