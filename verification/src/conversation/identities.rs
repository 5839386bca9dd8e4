//! What a block of another identity does to the conversations of the store.
use vstd::prelude::*;
use crate::error::Error;
use crate::ids::{self, contains_did, Did, Uuid};
use super::document::{self, ConversationDocument};
use super::lifecycle::{self, Deleted};
use super::members;
use super::store::{self, ConversationInner};
use super::{ConversationType, Effects};

verus! {

/// A change among the other identities.
#[derive(Clone, Copy, PartialEq, Eq, Structural, Debug)]
pub enum MultiPassEventKind {
    FriendAdded { did: Did },
    FriendRemoved { did: Did },
    Blocked { did: Did },
    BlockedBy { did: Did },
    Unblocked { did: Did },
    IdentityOnline { did: Did },
    Other,
}

/// What became of one conversation.
pub enum Measure {
    /// Nothing was done.
    Passed,
    /// The direct conversation was deleted.
    Deleted(Result<Deleted, Error>),
    /// The identity was taken out of the group, and kept out where it is blocked.
    Removed { removed: Result<Effects, Error>, restricted: Option<Result<Effects, Error>> },
    /// The identity is no longer kept out of the group.
    Unrestricted(Result<Effects, Error>),
}

/// The conversations that an identity takes part in.
pub open spec fn shared_with(conversations: Seq<ConversationDocument>, did: Did) -> Seq<Uuid>
    decreases conversations.len(),
{
    if conversations.len() == 0 {
        Seq::empty()
    } else {
        let rest = shared_with(conversations.drop_last(), did);
        if conversations.last().spec_recipients().contains(did) {
            rest.push(conversations.last().id)
        } else {
            rest
        }
    }
}

/// Whether a conversation is a group of the own identity that keeps an identity out.
pub open spec fn keeps_out(doc: ConversationDocument, own: Did, did: Did) -> bool {
    &&& doc.creator == Some(own)
    &&& doc.conversation_type is Group
    &&& doc.restrict@.contains(did)
}

/// The groups of the own identity that keep an identity out.
pub open spec fn closed_to(
    conversations: Seq<ConversationDocument>,
    own: Did,
    did: Did,
) -> Seq<Uuid>
    decreases conversations.len(),
{
    if conversations.len() == 0 {
        Seq::empty()
    } else {
        let rest = closed_to(conversations.drop_last(), own, did);
        if keeps_out(conversations.last(), own, did) {
            rest.push(conversations.last().id)
        } else {
            rest
        }
    }
}

/// What happens to one conversation with an identity that was blocked, or that has blocked the own
/// one. A direct conversation is deleted. The identity is taken out of a group of the own identity,
/// and kept out of it where it is blocked.
pub open spec fn block_step(
    before: ConversationInner,
    after: ConversationInner,
    r: Measure,
    id: Uuid,
    did: Did,
    blocked: bool,
) -> bool {
    let i = store::conversation_index(before.conversations@, id);
    let doc = before.conversations@[i];
    if !store::has_conversation(before.conversations@, id) {
        r == Measure::Passed && after == before
    } else if doc.conversation_type is Direct {
        &&& r matches Measure::Deleted(deleted)
        &&& lifecycle::delete_conversation_post(before, after, deleted, id, true)
    } else if doc.creator != Some(before.own) {
        r == Measure::Passed && after == before
    } else {
        &&& r matches Measure::Removed { removed, restricted }
        &&& exists|middle: ConversationInner|
            {
                &&& #[trigger] store::only_changed(before, middle, i)
                &&& members::remove_participant_post(
                    doc,
                    middle.conversations@[i],
                    removed,
                    before.own,
                    did,
                    true,
                )
                &&& if removed is Ok && blocked {
                    &&& store::only_changed(middle, after, i)
                    &&& restricted matches Some(result)
                    &&& members::add_restricted_post(
                        middle.conversations@[i],
                        after.conversations@[i],
                        result,
                        before.own,
                        did,
                        blocked,
                    )
                } else {
                    restricted is None && after == middle
                }
            }
    }
}

/// What happens to one conversation that kept an identity out which is no longer blocked.
pub open spec fn unblock_step(
    before: ConversationInner,
    after: ConversationInner,
    r: Measure,
    id: Uuid,
    did: Did,
    blocked: bool,
) -> bool {
    let i = store::conversation_index(before.conversations@, id);
    &&& r matches Measure::Unrestricted(result)
    &&& if !store::has_conversation(before.conversations@, id) {
        result == Err::<Effects, Error>(Error::InvalidConversation) && after == before
    } else {
        &&& store::only_changed(before, after, i)
        &&& members::remove_restricted_post(
            before.conversations@[i],
            after.conversations@[i],
            result,
            before.own,
            did,
            blocked,
        )
    }
}

/// The stores between the first and the last, one conversation after the other.
pub open spec fn is_block_run(
    states: Seq<ConversationInner>,
    ids: Seq<Uuid>,
    r: Seq<Measure>,
    did: Did,
    blocked: bool,
) -> bool {
    &&& states.len() == ids.len() + 1
    &&& r.len() == ids.len()
    &&& forall|k: int|
        0 <= k < ids.len() ==> block_step(
            #[trigger] states[k],
            states[k + 1],
            r[k],
            ids[k],
            did,
            blocked,
        )
}

/// The stores between the first and the last, one conversation after the other.
pub open spec fn is_unblock_run(
    states: Seq<ConversationInner>,
    ids: Seq<Uuid>,
    r: Seq<Measure>,
    did: Did,
    blocked: bool,
) -> bool {
    &&& states.len() == ids.len() + 1
    &&& r.len() == ids.len()
    &&& forall|k: int|
        0 <= k < ids.len() ==> unblock_step(
            #[trigger] states[k],
            states[k + 1],
            r[k],
            ids[k],
            did,
            blocked,
        )
}

/// Whether a block of an identity has something to change in a conversation.
pub open spec fn is_affected(doc: ConversationDocument, own: Did, did: Did) -> bool {
    &&& !doc.deleted
    &&& doc.spec_recipients().contains(did)
    &&& doc.conversation_type is Direct || doc.creator == Some(own) && did != own
}

/// No conversation is left that a block of an identity has something to change in.
pub open spec fn is_cleared(inner: ConversationInner, did: Did) -> bool {
    forall|j: int|
        0 <= j < inner.conversations@.len() ==> !is_affected(
            #[trigger] inner.conversations@[j],
            inner.own,
            did,
        )
}

/// What follows where an identity is blocked, or has blocked the own one.
pub open spec fn blocked_post(
    before: ConversationInner,
    after: ConversationInner,
    r: Seq<Measure>,
    did: Did,
    blocked: bool,
) -> bool {
    &&& exists|states: Seq<ConversationInner>|
        {
            &&& #[trigger] is_block_run(
                states,
                shared_with(before.conversations@, did),
                r,
                did,
                blocked,
            )
            &&& states.first() == before
            &&& states.last() == after
        }
    &&& is_cleared(after, did)
}

/// What follows where an identity is no longer blocked.
pub open spec fn unblocked_post(
    before: ConversationInner,
    after: ConversationInner,
    r: Seq<Measure>,
    did: Did,
    blocked: bool,
) -> bool {
    exists|states: Seq<ConversationInner>|
        {
            &&& #[trigger] is_unblock_run(
                states,
                closed_to(before.conversations@, before.own, did),
                r,
                did,
                blocked,
            )
            &&& states.first() == before
            &&& states.last() == after
        }
}

/// What `ConversationInner::process_identity_events` does.
pub open spec fn identity_post(
    before: ConversationInner,
    after: ConversationInner,
    r: Seq<Measure>,
    event: MultiPassEventKind,
    blocked: bool,
) -> bool {
    match event {
        MultiPassEventKind::Blocked { did } => blocked_post(before, after, r, did, blocked),
        MultiPassEventKind::BlockedBy { did } => blocked_post(before, after, r, did, blocked),
        MultiPassEventKind::Unblocked { did } => unblocked_post(before, after, r, did, blocked),
        _ => after == before && r.len() == 0,
    }
}

/// Everyone who is in a conversation is on its list.
proof fn lemma_present(recipients: Seq<Did>, excluded: Seq<document::Exclusion>, did: Did)
    requires
        document::present(recipients, excluded).contains(did),
    ensures
        recipients.contains(did),
    decreases recipients.len(),
{
    reveal(Seq::filter);
    let kept = document::present(recipients, excluded);
    if recipients.len() > 0 {
        let rest = document::present(recipients.drop_last(), excluded);
        if rest.contains(did) {
            lemma_present(recipients.drop_last(), excluded, did);
            let i = choose|i: int|
                0 <= i < recipients.drop_last().len() && recipients.drop_last()[i] == did;
            assert(recipients[i] == did);
        } else {
            let i = choose|i: int| 0 <= i < kept.len() && kept[i] == did;
            if i < rest.len() {
                assert(rest[i] == did);
            }
            assert(recipients.last() == did);
        }
    }
}

/// Who was taken off the list is not in the conversation.
proof fn lemma_absent(before: ConversationDocument, after: ConversationDocument, did: Did)
    requires
        after.recipients@ == ids::without(before.recipients@, did),
    ensures
        !after.spec_recipients().contains(did),
{
    if after.spec_recipients().contains(did) {
        lemma_present(after.recipients@, after.excluded@, did);
        ids::without_members(before.recipients@, did, did);
    }
}

/// After its step, a conversation has nothing left for the block to change.
proof fn lemma_block_step(
    before: ConversationInner,
    after: ConversationInner,
    r: Measure,
    id: Uuid,
    did: Did,
    blocked: bool,
)
    requires
        store::distinct_conversations(before.conversations@),
        block_step(before, after, r, id, did, blocked),
    ensures
        after.own == before.own,
        forall|j: int|
            #![trigger after.conversations@[j]]
            0 <= j < after.conversations@.len() && is_affected(
                after.conversations@[j],
                after.own,
                did,
            ) ==> after.conversations@[j].id != id && before.conversations@.contains(
                after.conversations@[j],
            ),
{
    if store::has_conversation(before.conversations@, id) {
        store::lemma_has_conversation(before.conversations@, id);
        let i = store::conversation_index(before.conversations@, id);
        let doc = before.conversations@[i];
        if doc.conversation_type is Direct {
            assert forall|j: int|
                #![trigger after.conversations@[j]]
                0 <= j < after.conversations@.len() && is_affected(
                    after.conversations@[j],
                    after.own,
                    did,
                ) implies after.conversations@[j].id != id && before.conversations@.contains(
                after.conversations@[j],
            ) by {
                if lifecycle::delete_refusal(before, id) is None {
                    let k = if j < i {
                        j
                    } else {
                        j + 1
                    };
                    assert(after.conversations@[j] == before.conversations@[k]);
                } else {
                    assert(after.conversations@[j] == before.conversations@[j]);
                }
            }
        } else if doc.creator == Some(before.own) {
            match r {
                Measure::Removed { removed, restricted } => {
                    let middle = choose|middle: ConversationInner|
                        {
                            &&& #[trigger] store::only_changed(before, middle, i)
                            &&& members::remove_participant_post(
                                doc,
                                middle.conversations@[i],
                                removed,
                                before.own,
                                did,
                                true,
                            )
                            &&& if removed is Ok && blocked {
                                &&& store::only_changed(middle, after, i)
                                &&& restricted matches Some(result)
                                &&& members::add_restricted_post(
                                    middle.conversations@[i],
                                    after.conversations@[i],
                                    result,
                                    before.own,
                                    did,
                                    blocked,
                                )
                            } else {
                                restricted is None && after == middle
                            }
                        };
                    let changed = middle.conversations@[i];
                    if removed is Ok {
                        lemma_absent(doc, changed, did);
                    } else if doc.spec_recipients().contains(did) {
                        lemma_present(doc.recipients@, doc.excluded@, did);
                    }
                    assert(!is_affected(after.conversations@[i], after.own, did));
                    assert forall|j: int|
                        #![trigger after.conversations@[j]]
                        0 <= j < after.conversations@.len() && is_affected(
                            after.conversations@[j],
                            after.own,
                            did,
                        ) implies after.conversations@[j].id != id && before.conversations@.contains(
                        after.conversations@[j],
                    ) by {
                        assert(j != i);
                        assert(middle.conversations@[j] == before.conversations@[j]);
                        assert(after.conversations@[j] == before.conversations@[j]);
                    }
                },
                _ => {},
            }
        } else {
            assert forall|j: int|
                #![trigger after.conversations@[j]]
                0 <= j < after.conversations@.len() && is_affected(
                    after.conversations@[j],
                    after.own,
                    did,
                ) implies after.conversations@[j].id != id by {
                if after.conversations@[j].id == id {
                    assert(before.conversations@[j].id == before.conversations@[i].id);
                }
            }
        }
    } else {
        assert forall|j: int|
            #![trigger after.conversations@[j]]
            0 <= j < after.conversations@.len() && is_affected(
                after.conversations@[j],
                after.own,
                did,
            ) implies after.conversations@[j].id != id by {
            if after.conversations@[j].id == id {
                assert(store::has_conversation(before.conversations@, id));
            }
        }
    }
}

/// Each conversation that an identity takes part in is among those that it takes part in.
proof fn lemma_shared_with(conversations: Seq<ConversationDocument>, did: Did, j: int)
    requires
        0 <= j < conversations.len(),
        conversations[j].spec_recipients().contains(did),
    ensures
        shared_with(conversations, did).contains(conversations[j].id),
    decreases conversations.len(),
{
    let all = shared_with(conversations, did);
    let rest = shared_with(conversations.drop_last(), did);
    if j == conversations.len() - 1 {
        assert(all.last() == conversations[j].id);
    } else {
        lemma_shared_with(conversations.drop_last(), did, j);
        let k = choose|k: int| 0 <= k < rest.len() && rest[k] == conversations[j].id;
        assert(all[k] == rest[k]);
    }
}

impl ConversationInner {
    fn find_shared(&self, did: Did) -> (r: Vec<Uuid>)
        ensures
            r@ == shared_with(self.conversations@, did),
    {
        let ghost all = self.conversations@;
        let mut r: Vec<Uuid> = Vec::new();
        let mut i: usize = 0;
        assert(all.take(0) == Seq::<ConversationDocument>::empty());
        while i < self.conversations.len()
            invariant
                all == self.conversations@,
                i <= all.len(),
                r@ == shared_with(all.take(i as int), did),
            decreases all.len() - i,
        {
            assert(all.take(i + 1).drop_last() == all.take(i as int));
            if contains_did(&self.conversations[i].recipients(), did) {
                r.push(self.conversations[i].id);
            }
            i = i + 1;
        }
        assert(all.take(all.len() as int) == all);
        r
    }

    fn find_closed(&self, did: Did) -> (r: Vec<Uuid>)
        ensures
            r@ == closed_to(self.conversations@, self.own, did),
    {
        let ghost all = self.conversations@;
        let mut r: Vec<Uuid> = Vec::new();
        let mut i: usize = 0;
        assert(all.take(0) == Seq::<ConversationDocument>::empty());
        while i < self.conversations.len()
            invariant
                all == self.conversations@,
                i <= all.len(),
                r@ == closed_to(all.take(i as int), self.own, did),
            decreases all.len() - i,
        {
            assert(all.take(i + 1).drop_last() == all.take(i as int));
            let doc = &self.conversations[i];
            let created: bool = match doc.creator {
                Some(creator) => creator == self.own,
                None => false,
            };
            if created && doc.conversation_type == ConversationType::Group && contains_did(
                &doc.restrict,
                did,
            ) {
                r.push(doc.id);
            }
            i = i + 1;
        }
        assert(all.take(all.len() as int) == all);
        r
    }

    fn apply_block(&mut self, id: Uuid, did: Did, blocked: bool) -> (r: Measure)
        ensures
            block_step(*old(self), *final(self), r, id, did, blocked),
            old(self).well_formed() ==> final(self).well_formed(),
    {
        let own_group: bool = match self.get(id) {
            Err(_) => return Measure::Passed,
            Ok(doc) => match doc.conversation_type {
                ConversationType::Direct => false,
                ConversationType::Group => match doc.creator {
                    Some(creator) => if creator == self.own {
                        true
                    } else {
                        return Measure::Passed;
                    },
                    None => return Measure::Passed,
                },
            },
        };
        if !own_group {
            return Measure::Deleted(self.delete_conversation(id, true));
        }
        let removed = self.remove_recipient(id, did, true);
        let ghost middle = *self;
        let ghost i = store::conversation_index(old(self).conversations@, id);
        proof {
            store::lemma_has_conversation(old(self).conversations@, id);
            assert(store::only_changed(*old(self), middle, i));
        }
        if removed.is_ok() && blocked {
            proof {
                store::lemma_same_index(old(self).conversations@, middle.conversations@, id);
            }
            let restricted = self.add_restricted(id, did, blocked);
            Measure::Removed { removed, restricted: Some(restricted) }
        } else {
            Measure::Removed { removed, restricted: None }
        }
    }

    /// Takes in a change among the other identities. `blocked` says whether the own identity has
    /// blocked the one that changed.
    pub fn process_identity_events(&mut self, event: MultiPassEventKind, blocked: bool) -> (r: Vec<
        Measure,
    >)
        requires
            old(self).well_formed(),
        ensures
            identity_post(*old(self), *final(self), r@, event, blocked),
            final(self).well_formed(),
    {
        match event {
            MultiPassEventKind::Blocked { did } => self.identity_blocked(did, blocked),
            MultiPassEventKind::BlockedBy { did } => self.identity_blocked(did, blocked),
            MultiPassEventKind::Unblocked { did } => self.identity_unblocked(did, blocked),
            _ => Vec::new(),
        }
    }

    fn identity_blocked(&mut self, did: Did, blocked: bool) -> (r: Vec<Measure>)
        requires
            old(self).well_formed(),
        ensures
            blocked_post(*old(self), *final(self), r@, did, blocked),
            final(self).well_formed(),
    {
        let ids = self.find_shared(did);
        let mut r: Vec<Measure> = Vec::new();
        let ghost mut states: Seq<ConversationInner> = seq![*self];
        let mut k: usize = 0;
        proof {
            assert forall|j: int| 0 <= j < self.conversations@.len() && is_affected(
                #[trigger] self.conversations@[j],
                self.own,
                did,
            ) implies ids@.skip(0).contains(self.conversations@[j].id) by {
                lemma_shared_with(self.conversations@, did, j);
                assert(ids@.skip(0) == ids@);
            }
        }
        while k < ids.len()
            invariant
                k <= ids@.len(),
                self.well_formed(),
                states.len() == k + 1,
                states.first() == *old(self),
                states.last() == *self,
                ids@ == shared_with(old(self).conversations@, did),
                is_block_run(states, ids@.take(k as int), r@, did, blocked),
                forall|j: int|
                    0 <= j < self.conversations@.len() && is_affected(
                        #[trigger] self.conversations@[j],
                        self.own,
                        did,
                    ) ==> ids@.skip(k as int).contains(self.conversations@[j].id),
            decreases ids@.len() - k,
        {
            let ghost before = *self;
            let ghost earlier = r@;
            let ghost run = states;
            let id: Uuid = ids[k];
            let measure = self.apply_block(id, did, blocked);
            r.push(measure);
            proof {
                lemma_block_step(before, *self, measure, id, did, blocked);
                states = states.push(*self);
                let taken = ids@.take(k + 1);
                assert forall|m: int| 0 <= m < taken.len() implies block_step(
                    #[trigger] states[m],
                    states[m + 1],
                    r@[m],
                    taken[m],
                    did,
                    blocked,
                ) by {
                    if m < k {
                        assert(block_step(
                            run[m],
                            run[m + 1],
                            earlier[m],
                            ids@.take(k as int)[m],
                            did,
                            blocked,
                        ));
                    }
                }
                assert forall|j: int| 0 <= j < self.conversations@.len() && is_affected(
                    #[trigger] self.conversations@[j],
                    self.own,
                    did,
                ) implies ids@.skip(k + 1).contains(self.conversations@[j].id) by {
                    let doc = self.conversations@[j];
                    let b = choose|b: int|
                        0 <= b < before.conversations@.len() && before.conversations@[b] == doc;
                    assert(is_affected(before.conversations@[b], before.own, did));
                    let m = choose|m: int|
                        0 <= m < ids@.skip(k as int).len() && ids@.skip(k as int)[m] == doc.id;
                    assert(m != 0);
                    assert(ids@.skip(k + 1)[m - 1] == doc.id);
                }
            }
            k = k + 1;
        }
        proof {
            assert(ids@.take(ids@.len() as int) == ids@);
            assert forall|j: int| 0 <= j < self.conversations@.len() implies !is_affected(
                #[trigger] self.conversations@[j],
                self.own,
                did,
            ) by {
                assert(ids@.skip(k as int).len() == 0);
            }
        }
        r
    }

    fn identity_unblocked(&mut self, did: Did, blocked: bool) -> (r: Vec<Measure>)
        requires
            old(self).well_formed(),
        ensures
            unblocked_post(*old(self), *final(self), r@, did, blocked),
            final(self).well_formed(),
    {
        let ids = self.find_closed(did);
        let mut r: Vec<Measure> = Vec::new();
        let ghost mut states: Seq<ConversationInner> = seq![*self];
        let mut k: usize = 0;
        while k < ids.len()
            invariant
                k <= ids@.len(),
                self.well_formed(),
                states.len() == k + 1,
                states.first() == *old(self),
                states.last() == *self,
                ids@ == closed_to(old(self).conversations@, old(self).own, did),
                is_unblock_run(states, ids@.take(k as int), r@, did, blocked),
            decreases ids@.len() - k,
        {
            let ghost earlier = r@;
            let ghost run = states;
            let id: Uuid = ids[k];
            let measure = Measure::Unrestricted(self.remove_restricted(id, did, blocked));
            r.push(measure);
            proof {
                states = states.push(*self);
                let taken = ids@.take(k + 1);
                assert forall|m: int| 0 <= m < taken.len() implies unblock_step(
                    #[trigger] states[m],
                    states[m + 1],
                    r@[m],
                    taken[m],
                    did,
                    blocked,
                ) by {
                    if m < k {
                        assert(unblock_step(
                            run[m],
                            run[m + 1],
                            earlier[m],
                            ids@.take(k as int)[m],
                            did,
                            blocked,
                        ));
                    }
                }
            }
            k = k + 1;
        }
        proof {
            assert(ids@.take(ids@.len() as int) == ids@);
        }
        r
    }
}

} // verus!
