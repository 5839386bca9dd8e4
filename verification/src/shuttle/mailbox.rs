//! The mailboxes of conversations: references to messages, each kept for a member who has not
//! fetched it yet.
use vstd::prelude::*;
use std::collections::BTreeMap;
use crate::error::{Error, Reason};
use crate::ids::{contains_did, Cid, Did, Uuid};

verus! {

broadcast use vstd::std_specs::btree::group_btree_axioms;

/// What waits for one member of a conversation.
pub struct MemberBox {
    pub conversation_id: Uuid,
    pub did: Did,
    pub messages: BTreeMap<u128, Cid>,
}

/// The mailboxes, once there are any.
pub struct MessageStorage {
    pub list: Option<Vec<MemberBox>>,
}

/// Whether a box is that of a member of a conversation.
pub open spec fn is_box_of(entry: MemberBox, conversation_id: Uuid, did: Did) -> bool {
    entry.conversation_id == conversation_id && entry.did == did
}

/// What waits for a member of a conversation, where there is a box.
pub open spec fn box_of(
    boxes: Seq<MemberBox>,
    conversation_id: Uuid,
    did: Did,
) -> Option<Map<Uuid, Cid>>
    decreases boxes.len(),
{
    if boxes.len() == 0 {
        None
    } else if is_box_of(boxes.last(), conversation_id, did) {
        Some(boxes.last().messages@)
    } else {
        box_of(boxes.drop_last(), conversation_id, did)
    }
}

/// A box with one more message.
pub open spec fn with_message(
    waiting: Option<Map<Uuid, Cid>>,
    message_id: Uuid,
    cid: Cid,
) -> Map<Uuid, Cid> {
    match waiting {
        Some(messages) => messages.insert(message_id, cid),
        None => Map::<Uuid, Cid>::empty().insert(message_id, cid),
    }
}

/// Why a message is not put into mailboxes.
pub open spec fn insert_refusal(
    registered: Seq<Did>,
    member: Did,
    available: bool,
) -> Option<Error> {
    if !registered.contains(member) {
        Some(Error::IdentityDoesntExist)
    } else if !available {
        Some(Error::OtherWithContext(Reason::MessageUnavailable))
    } else {
        None
    }
}

/// Why a message is not taken out of a mailbox.
pub open spec fn delivery_refusal(
    storage: MessageStorage,
    registered: Seq<Did>,
    member: Did,
    conversation_id: Uuid,
    message_id: Uuid,
) -> Option<Error> {
    if !registered.contains(member) {
        Some(Error::IdentityDoesntExist)
    } else {
        match storage.waiting(conversation_id, member) {
            None => Some(Error::InvalidConversation),
            Some(messages) => if messages.contains_key(message_id) {
                None
            } else {
                Some(Error::MessageNotFound)
            },
        }
    }
}

/// The mailboxes after a message was put into those of the registered recipients.
pub open spec fn is_inserted(
    before: MessageStorage,
    after: MessageStorage,
    registered: Seq<Did>,
    recipients: Seq<Did>,
    conversation_id: Uuid,
    message_id: Uuid,
    cid: Cid,
) -> bool {
    &&& after.list is Some
    &&& forall|c: Uuid, d: Did| #[trigger]
        after.waiting(c, d) == (if c == conversation_id && recipients.contains(d)
            && registered.contains(d) {
            Some(with_message(before.waiting(c, d), message_id, cid))
        } else {
            before.waiting(c, d)
        })
}

/// The mailboxes after a member got a message.
pub open spec fn is_delivered(
    before: MessageStorage,
    after: MessageStorage,
    member: Did,
    conversation_id: Uuid,
    message_id: Uuid,
) -> bool {
    &&& after.list is Some
    &&& forall|c: Uuid, d: Did| #[trigger]
        after.waiting(c, d) == (if c == conversation_id && d == member {
            Some(before.waiting(c, d)->Some_0.remove(message_id))
        } else {
            before.waiting(c, d)
        })
}

/// What `MessageStorage::insert_or_update` does.
pub open spec fn insert_post(
    before: MessageStorage,
    after: MessageStorage,
    r: Result<(), Error>,
    registered: Seq<Did>,
    member: Did,
    recipients: Seq<Did>,
    conversation_id: Uuid,
    message_id: Uuid,
    cid: Cid,
    available: bool,
) -> bool {
    match insert_refusal(registered, member, available) {
        Some(e) => r == Err::<(), Error>(e) && after == before,
        None => {
            &&& r is Ok
            &&& is_inserted(
                before,
                after,
                registered,
                recipients,
                conversation_id,
                message_id,
                cid,
            )
        },
    }
}

/// What `MessageStorage::message_delivered` does.
pub open spec fn delivered_post(
    before: MessageStorage,
    after: MessageStorage,
    r: Result<(), Error>,
    registered: Seq<Did>,
    member: Did,
    conversation_id: Uuid,
    message_id: Uuid,
) -> bool {
    match delivery_refusal(before, registered, member, conversation_id, message_id) {
        Some(e) => r == Err::<(), Error>(e) && after == before,
        None => {
            &&& r is Ok
            &&& is_delivered(before, after, member, conversation_id, message_id)
        },
    }
}

/// What `MessageStorage::remove_mailbox` does.
pub open spec fn remove_mailbox_post(
    before: MessageStorage,
    after: MessageStorage,
    r: Result<(), Error>,
    registered: Seq<Did>,
    creator: Did,
    conversation_id: Uuid,
) -> bool {
    if !registered.contains(creator) {
        r == Err::<(), Error>(Error::IdentityDoesntExist) && after == before
    } else if before.list is None {
        r == Err::<(), Error>(Error::InvalidConversation) && after == before
    } else {
        &&& r is Ok
        &&& after.list is Some
        &&& forall|c: Uuid, d: Did| #[trigger]
            after.waiting(c, d) == (if c == conversation_id {
                None
            } else {
                before.waiting(c, d)
            })
    }
}

/// What `MessageStorage::get_unsent_messages` returns.
pub open spec fn unsent_messages_post(
    storage: MessageStorage,
    r: Result<BTreeMap<u128, Cid>, Error>,
    registered: Seq<Did>,
    member: Did,
    conversation_id: Uuid,
) -> bool {
    if !registered.contains(member) {
        r == Err::<BTreeMap<u128, Cid>, Error>(Error::IdentityDoesntExist)
    } else if storage.list is None {
        r matches Ok(messages) && messages@ == Map::<Uuid, Cid>::empty()
    } else {
        match storage.waiting(conversation_id, member) {
            Some(waiting) => r matches Ok(messages) && messages@ == waiting,
            None => r == Err::<BTreeMap<u128, Cid>, Error>(
                Error::OtherWithContext(Reason::NoMailbox),
            ),
        }
    }
}

/// Changing the box that is found changes no other.
proof fn lemma_updated(boxes: Seq<MemberBox>, i: int, entry: MemberBox)
    requires
        0 <= i < boxes.len(),
        is_box_of(boxes[i], entry.conversation_id, entry.did),
        forall|j: int|
            i < j < boxes.len() ==> !is_box_of(
                #[trigger] boxes[j],
                entry.conversation_id,
                entry.did,
            ),
    ensures
        forall|c: Uuid, d: Did| #[trigger]
            box_of(boxes.update(i, entry), c, d) == (if is_box_of(entry, c, d) {
                Some(entry.messages@)
            } else {
                box_of(boxes, c, d)
            }),
    decreases boxes.len(),
{
    let after = boxes.update(i, entry);
    if i == boxes.len() - 1 {
        assert(after.drop_last() == boxes.drop_last());
    } else {
        assert(after.drop_last() == boxes.drop_last().update(i, entry));
        lemma_updated(boxes.drop_last(), i, entry);
        assert forall|c: Uuid, d: Did| #[trigger] box_of(after, c, d) == (if is_box_of(
            entry,
            c,
            d,
        ) {
            Some(entry.messages@)
        } else {
            box_of(boxes, c, d)
        }) by {
            assert(box_of(after.drop_last(), c, d) == (if is_box_of(entry, c, d) {
                Some(entry.messages@)
            } else {
                box_of(boxes.drop_last(), c, d)
            }));
            if is_box_of(entry, c, d) {
                assert(!is_box_of(boxes.last(), c, d));
            }
        }
    }
}

fn find_box(boxes: &Vec<MemberBox>, conversation_id: Uuid, did: Did) -> (r: Option<usize>)
    ensures
        match r {
            Some(i) => {
                &&& i < boxes@.len()
                &&& is_box_of(boxes@[i as int], conversation_id, did)
                &&& forall|j: int|
                    i < j < boxes@.len() ==> !is_box_of(
                        #[trigger] boxes@[j],
                        conversation_id,
                        did,
                    )
                &&& box_of(boxes@, conversation_id, did) == Some(boxes@[i as int].messages@)
            },
            None => box_of(boxes@, conversation_id, did) is None,
        },
{
    let ghost all = boxes@;
    let mut i: usize = boxes.len();
    assert(all.take(i as int) == all);
    while i > 0
        invariant
            all == boxes@,
            i <= all.len(),
            forall|j: int|
                i <= j < all.len() ==> !is_box_of(#[trigger] all[j], conversation_id, did),
            box_of(all.take(i as int), conversation_id, did) == box_of(all, conversation_id, did),
        decreases i,
    {
        assert(all.take(i as int).drop_last() == all.take(i - 1));
        assert(all.take(i as int).last() == all[i - 1]);
        i = i - 1;
        if boxes[i].conversation_id == conversation_id && boxes[i].did == did {
            return Some(i);
        }
    }
    None
}

/// Puts a message into the box of a member of a conversation, which is made where there is none.
fn put_message(
    boxes: &mut Vec<MemberBox>,
    conversation_id: Uuid,
    did: Did,
    message_id: Uuid,
    cid: Cid,
)
    ensures
        forall|c: Uuid, d: Did| #[trigger]
            box_of(final(boxes)@, c, d) == (if c == conversation_id && d == did {
                Some(with_message(box_of(old(boxes)@, c, d), message_id, cid))
            } else {
                box_of(old(boxes)@, c, d)
            }),
{
    let ghost before = boxes@;
    match find_box(boxes, conversation_id, did) {
        Some(i) => {
            let mut entry = boxes.remove(i);
            entry.messages.insert(message_id, cid);
            boxes.insert(i, entry);
            proof {
                assert(boxes@ == before.update(i as int, entry));
                lemma_updated(before, i as int, entry);
            }
        },
        None => {
            let mut messages: BTreeMap<u128, Cid> = BTreeMap::new();
            messages.insert(message_id, cid);
            assert(messages@ == Map::<Uuid, Cid>::empty().insert(message_id, cid));
            boxes.push(MemberBox { conversation_id, did, messages });
            assert(boxes@.drop_last() == before);
        },
    }
}

/// The boxes of all conversations but one.
fn without_conversation(boxes: Vec<MemberBox>, conversation_id: Uuid) -> (r: Vec<MemberBox>)
    ensures
        forall|c: Uuid, d: Did| #[trigger]
            box_of(r@, c, d) == (if c == conversation_id {
                None
            } else {
                box_of(boxes@, c, d)
            }),
{
    let ghost all = boxes@;
    let mut rest = boxes;
    let n: usize = rest.len();
    let mut r: Vec<MemberBox> = Vec::new();
    let mut k: usize = 0;
    assert(all.skip(0) == all);
    assert(all.take(0) == Seq::<MemberBox>::empty());
    while k < n
        invariant
            n == all.len(),
            k <= n,
            rest@ == all.skip(k as int),
            forall|c: Uuid, d: Did| #[trigger]
                box_of(r@, c, d) == (if c == conversation_id {
                    None
                } else {
                    box_of(all.take(k as int), c, d)
                }),
        decreases n - k,
    {
        let ghost before = r@;
        assert(rest@[0] == all[k as int]);
        let entry = rest.remove(0);
        assert(rest@ == all.skip(k + 1));
        assert(all.take(k + 1).drop_last() == all.take(k as int));
        assert(all.take(k + 1).last() == entry);
        if entry.conversation_id != conversation_id {
            r.push(entry);
            assert(r@.drop_last() == before);
        }
        proof {
            assert forall|c: Uuid, d: Did| #[trigger] box_of(r@, c, d) == (if c == conversation_id {
                None
            } else {
                box_of(all.take(k + 1), c, d)
            }) by {
                assert(box_of(before, c, d) == (if c == conversation_id {
                    None
                } else {
                    box_of(all.take(k as int), c, d)
                }));
            }
        }
        k = k + 1;
    }
    assert(all.take(n as int) == all);
    r
}

impl MessageStorage {
    /// What waits for a member of a conversation, where there is a box.
    pub open spec fn waiting(self, conversation_id: Uuid, did: Did) -> Option<Map<Uuid, Cid>> {
        match self.list {
            Some(boxes) => box_of(boxes@, conversation_id, did),
            None => None,
        }
    }

    /// A storage without mailboxes.
    pub fn new() -> (r: MessageStorage)
        ensures
            r.list is None,
    {
        MessageStorage { list: None }
    }

    /// Puts a message of a member, new or changed, into the mailboxes of the recipients. Only
    /// those who are registered have one. `available` says whether the message can be obtained.
    pub fn insert_or_update(
        &mut self,
        registered: &Vec<Did>,
        member: Did,
        recipients: &Vec<Did>,
        conversation_id: Uuid,
        message_id: Uuid,
        message_cid: Cid,
        available: bool,
    ) -> (r: Result<(), Error>)
        ensures
            insert_post(
                *old(self),
                *final(self),
                r,
                registered@,
                member,
                recipients@,
                conversation_id,
                message_id,
                message_cid,
                available,
            ),
    {
        if !contains_did(registered, member) {
            return Err(Error::IdentityDoesntExist);
        }
        if !available {
            return Err(Error::OtherWithContext(Reason::MessageUnavailable));
        }
        let mut boxes: Vec<MemberBox> = Vec::new();
        let mut list: Option<Vec<MemberBox>> = None;
        core::mem::swap(&mut self.list, &mut list);
        match list {
            Some(old_boxes) => {
                boxes = old_boxes;
            },
            None => {},
        }
        let ghost start = boxes@;
        assert(forall|c: Uuid, d: Did| #[trigger]
            box_of(start, c, d) == old(self).waiting(c, d));
        let mut i: usize = 0;
        while i < recipients.len()
            invariant
                i <= recipients@.len(),
                forall|c: Uuid, d: Did| #[trigger]
                    box_of(start, c, d) == old(self).waiting(c, d),
                forall|c: Uuid, d: Did| #[trigger]
                    box_of(boxes@, c, d) == (if c == conversation_id && recipients@.take(
                        i as int,
                    ).contains(d) && registered@.contains(d) {
                        Some(with_message(box_of(start, c, d), message_id, message_cid))
                    } else {
                        box_of(start, c, d)
                    }),
            decreases recipients@.len() - i,
        {
            let ghost before = boxes@;
            let did: Did = recipients[i];
            if contains_did(registered, did) {
                put_message(&mut boxes, conversation_id, did, message_id, message_cid);
            }
            proof {
                let taken = recipients@.take(i as int);
                let more = recipients@.take(i + 1);
                assert(more == taken.push(did));
                assert forall|d: Did| more.contains(d) <==> taken.contains(d) || d == did by {
                    if taken.contains(d) {
                        let k = choose|k: int| 0 <= k < taken.len() && taken[k] == d;
                        assert(more[k] == d);
                    }
                    if d == did {
                        assert(more[i as int] == d);
                    }
                    if more.contains(d) {
                        let k = choose|k: int| 0 <= k < more.len() && more[k] == d;
                        if k < i {
                            assert(taken[k] == d);
                        }
                    }
                }
                assert forall|c: Uuid, d: Did| #[trigger] box_of(boxes@, c, d) == (if c
                    == conversation_id && more.contains(d) && registered@.contains(d) {
                    Some(with_message(box_of(start, c, d), message_id, message_cid))
                } else {
                    box_of(start, c, d)
                }) by {
                    let earlier = box_of(before, c, d);
                    if c == conversation_id && d == did && registered@.contains(d)
                        && taken.contains(d) {
                        let once = with_message(box_of(start, c, d), message_id, message_cid);
                        assert(earlier == Some(once));
                        assert(once.insert(message_id, message_cid) == once);
                    }
                }
            }
            i = i + 1;
        }
        assert(recipients@.take(recipients@.len() as int) == recipients@);
        self.list = Some(boxes);
        Ok(())
    }

    /// Takes all mailboxes of a conversation away.
    pub fn remove_mailbox(
        &mut self,
        registered: &Vec<Did>,
        creator: Did,
        conversation_id: Uuid,
    ) -> (r: Result<(), Error>)
        ensures
            remove_mailbox_post(
                *old(self),
                *final(self),
                r,
                registered@,
                creator,
                conversation_id,
            ),
    {
        if !contains_did(registered, creator) {
            return Err(Error::IdentityDoesntExist);
        }
        if self.list.is_none() {
            return Err(Error::InvalidConversation);
        }
        let mut list: Option<Vec<MemberBox>> = None;
        core::mem::swap(&mut self.list, &mut list);
        match list {
            Some(boxes) => {
                self.list = Some(without_conversation(boxes, conversation_id));
            },
            None => {},
        }
        Ok(())
    }

    /// The messages that wait for a member of a conversation.
    pub fn get_unsent_messages(
        &self,
        registered: &Vec<Did>,
        member: Did,
        conversation_id: Uuid,
    ) -> (r: Result<BTreeMap<u128, Cid>, Error>)
        ensures
            unsent_messages_post(*self, r, registered@, member, conversation_id),
    {
        if !contains_did(registered, member) {
            return Err(Error::IdentityDoesntExist);
        }
        match &self.list {
            None => Ok(BTreeMap::new()),
            Some(boxes) => match find_box(boxes, conversation_id, member) {
                Some(i) => Ok(boxes[i].messages.clone()),
                None => Err(Error::OtherWithContext(Reason::NoMailbox)),
            },
        }
    }

    /// Notes that a member has got a message.
    pub fn message_delivered(
        &mut self,
        registered: &Vec<Did>,
        member: Did,
        conversation_id: Uuid,
        message_id: Uuid,
    ) -> (r: Result<(), Error>)
        ensures
            delivered_post(
                *old(self),
                *final(self),
                r,
                registered@,
                member,
                conversation_id,
                message_id,
            ),
    {
        if !contains_did(registered, member) {
            return Err(Error::IdentityDoesntExist);
        }
        let i: usize = match &self.list {
            None => return Err(Error::InvalidConversation),
            Some(boxes) => match find_box(boxes, conversation_id, member) {
                None => return Err(Error::InvalidConversation),
                Some(i) => {
                    if !boxes[i].messages.contains_key(&message_id) {
                        return Err(Error::MessageNotFound);
                    }
                    i
                },
            },
        };
        let mut list: Option<Vec<MemberBox>> = None;
        core::mem::swap(&mut self.list, &mut list);
        match list {
            Some(mut boxes) => {
                let ghost before = boxes@;
                let mut entry = boxes.remove(i);
                entry.messages.remove(&message_id);
                boxes.insert(i, entry);
                proof {
                    assert(boxes@ == before.update(i as int, entry));
                    lemma_updated(before, i as int, entry);
                }
                self.list = Some(boxes);
            },
            None => {},
        }
        Ok(())
    }
}

/// A message that is put into the mailbox of a registered recipient waits there, and can be
/// delivered. After its delivery it waits there no more; what else waits, in this mailbox and in
/// all others, does not depend on the delivery.
pub proof fn message_waits_until_delivered(
    before: MessageStorage,
    between: MessageStorage,
    after: MessageStorage,
    registered: Seq<Did>,
    recipients: Seq<Did>,
    member: Did,
    conversation_id: Uuid,
    message_id: Uuid,
    cid: Cid,
)
    requires
        registered.contains(member),
        recipients.contains(member),
        is_inserted(before, between, registered, recipients, conversation_id, message_id, cid),
        is_delivered(between, after, member, conversation_id, message_id),
    ensures
        between.waiting(conversation_id, member) matches Some(messages)
            && messages.contains_key(message_id) && messages[message_id] == cid,
        delivery_refusal(between, registered, member, conversation_id, message_id) is None,
        after.waiting(conversation_id, member) matches Some(messages) && messages == (
        match before.waiting(conversation_id, member) {
            Some(earlier) => earlier.remove(message_id),
            None => Map::empty(),
        }),
        forall|c: Uuid, d: Did|
            c != conversation_id || d != member ==> #[trigger] after.waiting(c, d)
                == between.waiting(c, d),
{
    let put = with_message(before.waiting(conversation_id, member), message_id, cid);
    assert(between.waiting(conversation_id, member) == Some(put));
    match before.waiting(conversation_id, member) {
        Some(earlier) => {
            assert(put.remove(message_id) == earlier.remove(message_id));
        },
        None => {
            assert(put.remove(message_id) == Map::<Uuid, Cid>::empty());
        },
    }
}

} // verus!
