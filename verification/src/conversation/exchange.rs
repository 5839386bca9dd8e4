//! The keys of groups, the payloads that wait for them, and what is published.
use vstd::prelude::*;
use crate::error::{Error, Reason};
use crate::ids::{contains_did, Did, Uuid};
use super::document::ConversationDocument;
use super::keys::{self, copy_bytes, KeyEntry, Keystore};
use super::lifecycle;
use super::queue;
use super::store::{self, ConversationInner, PendingList, PendingPayload};
use super::task::{
    self, Answer, ConversationKey, ConversationRequestKind, ConversationResponseKind, FollowUp,
    Reception,
};
use super::ConversationType;

verus! {

/// Why there is no keystore of a conversation.
pub open spec fn keystore_refusal(inner: ConversationInner, id: Uuid) -> Option<Error> {
    if !store::has_conversation(inner.conversations@, id) {
        Some(Error::InvalidConversation)
    } else if lifecycle::keystore_of(inner.keystores@, id) is None {
        Some(Error::OtherWithContext(Reason::KeystoreMissing))
    } else {
        None
    }
}

/// The keys of a conversation.
pub open spec fn keys_of(inner: ConversationInner, id: Uuid) -> Seq<KeyEntry> {
    lifecycle::keystore_of(inner.keystores@, id)->Some_0.keys@
}

/// The document of a conversation.
pub open spec fn document_of(inner: ConversationInner, id: Uuid) -> ConversationDocument {
    inner.conversations@[store::conversation_index(inner.conversations@, id)]
}

/// Whether a conversation is a group whose keystore is missing, so that nothing in it can be read or
/// written.
pub open spec fn is_keyless(inner: ConversationInner, id: Uuid) -> bool {
    &&& document_of(inner, id).conversation_type is Group
    &&& lifecycle::keystore_of(inner.keystores@, id) is None
}

/// Why there is no key of a member, or of the own identity, in a conversation.
pub open spec fn key_refusal(
    inner: ConversationInner,
    id: Uuid,
    member: Option<Did>,
) -> Option<Error> {
    if !store::has_conversation(inner.conversations@, id) {
        Some(Error::InvalidConversation)
    } else {
        let doc = document_of(inner, id);
        let holder = match member {
            Some(m) => m,
            None => inner.own,
        };
        match doc.conversation_type {
            ConversationType::Direct => if doc.counterpart(inner.own) is None {
                Some(Error::InvalidConversation)
            } else {
                None
            },
            ConversationType::Group => match keystore_refusal(inner, id) {
                Some(e) => Some(e),
                None => if keys::latest_key(keys_of(inner, id), holder) is None {
                    Some(Error::PublicKeyDoesntExist)
                } else {
                    None
                },
            },
        }
    }
}

/// Why a conversation that is there has neither a shared key nor a keystore.
pub open spec fn source_refusal(inner: ConversationInner, id: Uuid) -> Option<Error> {
    let doc = document_of(inner, id);
    match doc.conversation_type {
        ConversationType::Direct => if doc.counterpart(inner.own) is None {
            Some(Error::InvalidConversation)
        } else {
            None
        },
        ConversationType::Group => keystore_refusal(inner, id),
    }
}

/// The key of a payload, or why there is none.
pub open spec fn key_post(
    inner: ConversationInner,
    id: Uuid,
    member: Option<Did>,
    r: Result<ConversationKey<'_>, Error>,
) -> bool {
    if !store::has_conversation(inner.conversations@, id) {
        r == Err::<ConversationKey<'_>, Error>(Error::InvalidConversation)
    } else {
        let doc = document_of(inner, id);
        match doc.conversation_type {
            ConversationType::Direct => match doc.counterpart(inner.own) {
                Some(other) => r == Ok::<ConversationKey<'_>, Error>(
                    ConversationKey::Shared(other),
                ),
                None => r == Err::<ConversationKey<'_>, Error>(Error::InvalidConversation),
            },
            ConversationType::Group => match keystore_refusal(inner, id) {
                Some(e) => r == Err::<ConversationKey<'_>, Error>(e),
                None => {
                    let holder = match member {
                        Some(m) => m,
                        None => inner.own,
                    };
                    match keys::latest_key(keys_of(inner, id), holder) {
                        Some(key) => r matches Ok(ConversationKey::Stored(k)) && k@ == key,
                        None => r == Err::<ConversationKey<'_>, Error>(
                            Error::PublicKeyDoesntExist,
                        ),
                    }
                },
            },
        }
    }
}

/// What the messages of a conversation are read with: the other member of a direct one, or the
/// keystore of a group.
pub enum KeySource<'a> {
    Member(Did),
    Keystore(&'a Keystore),
}

/// The payloads of a conversation that wait for keys, as plain values.
pub open spec fn payloads_view(list: Seq<PendingPayload>) -> Seq<(Did, (Seq<u8>, bool))> {
    list.map_values(|p: PendingPayload| (p.did, (p.data@, p.received)))
}

/// The payloads that wait for keys, as plain values.
pub open spec fn pending_view(
    lists: Seq<PendingList>,
) -> Seq<(Uuid, Seq<(Did, (Seq<u8>, bool))>)> {
    lists.map_values(|l: PendingList| (l.id, payloads_view(l.list@)))
}

/// The lists with a payload more at the end of that of a conversation, which is made where there
/// is none.
pub open spec fn set_aside(
    lists: Seq<(Uuid, Seq<(Did, (Seq<u8>, bool))>)>,
    id: Uuid,
    payload: (Did, (Seq<u8>, bool)),
) -> Seq<(Uuid, Seq<(Did, (Seq<u8>, bool))>)>
    decreases lists.len(),
{
    if lists.len() == 0 {
        seq![(id, seq![payload])]
    } else if lists[0].0 == id {
        lists.update(0, (id, lists[0].1.push(payload)))
    } else {
        seq![lists[0]] + set_aside(lists.drop_first(), id, payload)
    }
}

/// A list of payloads after the key of a member came.
pub open spec fn received_from(
    list: Seq<(Did, (Seq<u8>, bool))>,
    sender: Did,
) -> Seq<(Did, (Seq<u8>, bool))> {
    list.map_values(
        |p: (Did, (Seq<u8>, bool))|
            if p.0 == sender {
                (p.0, (p.1.0, true))
            } else {
                p
            },
    )
}

/// The lists after the key of a member of a conversation came.
pub open spec fn received(
    lists: Seq<(Uuid, Seq<(Did, (Seq<u8>, bool))>)>,
    id: Uuid,
    sender: Did,
) -> Seq<(Uuid, Seq<(Did, (Seq<u8>, bool))>)> {
    lists.map_values(
        |l: (Uuid, Seq<(Did, (Seq<u8>, bool))>)|
            if l.0 == id {
                (l.0, received_from(l.1, sender))
            } else {
                l
            },
    )
}

/// The lists without the payloads whose keys have come, and without those that are empty then.
pub open spec fn still_pending(
    lists: Seq<(Uuid, Seq<(Did, (Seq<u8>, bool))>)>,
) -> Seq<(Uuid, Seq<(Did, (Seq<u8>, bool))>)>
    decreases lists.len(),
{
    if lists.len() == 0 {
        Seq::empty()
    } else {
        let rest = still_pending(lists.drop_last());
        let kept = task::still_waiting(lists.last().1);
        if kept.len() == 0 {
            rest
        } else {
            rest.push((lists.last().0, kept))
        }
    }
}

/// The payloads whose keys have come, each with its conversation. Those of a conversation without
/// a keystore are passed over.
pub open spec fn readable(
    inner: ConversationInner,
    lists: Seq<(Uuid, Seq<(Did, (Seq<u8>, bool))>)>,
) -> Seq<(Uuid, (Did, Seq<u8>))>
    decreases lists.len(),
{
    if lists.len() == 0 {
        Seq::empty()
    } else {
        let rest = readable(inner, lists.drop_last());
        if keystore_refusal(inner, lists.last().0) is None {
            rest + task::arrived(lists.last().1).map_values(
                |a: (Did, Seq<u8>)| (lists.last().0, a),
            )
        } else {
            rest
        }
    }
}

/// A payload whose key has come.
pub struct StoredArrival {
    pub conversation_id: Uuid,
    pub sender: Did,
    pub data: Vec<u8>,
}

pub open spec fn stored_arrivals_view(arrivals: Seq<StoredArrival>) -> Seq<
    (Uuid, (Did, Seq<u8>)),
> {
    arrivals.map_values(|a: StoredArrival| (a.conversation_id, (a.sender, a.data@)))
}

/// Whether a message waits in the queue for one of these.
pub open spec fn waits_for_any(
    queue: queue::QueueView,
    recipients: Seq<Did>,
    id: Uuid,
    message_id: Uuid,
) -> bool {
    exists|i: int|
        0 <= i < recipients.len() && waits_for(
            queue::waiting_for(queue, #[trigger] recipients[i]),
            id,
            message_id,
        )
}

/// Whether a message is among these.
pub open spec fn waits_for(
    items: Seq<queue::QueueItemView>,
    id: Uuid,
    message_id: Uuid,
) -> bool {
    exists|i: int|
        0 <= i < items.len() && (#[trigger] items[i]).id == id && items[i].m_id == Some(message_id)
}

/// What `ConversationInner::process_msg_event` does.
pub open spec fn process_msg_event_post(
    before: ConversationInner,
    after: ConversationInner,
    r: Result<Reception, Error>,
    id: Uuid,
    sender: Did,
    data: Seq<u8>,
) -> bool {
    if !store::has_conversation(before.conversations@, id) {
        r == Err::<Reception, Error>(Error::InvalidConversation) && after == before
    } else {
        let doc = document_of(before, id);
        match doc.conversation_type {
            ConversationType::Direct => after == before && r == (match doc.counterpart(before.own) {
                Some(other) => Ok::<Reception, Error>(Reception::Shared(other)),
                None => Err(Error::IdentityDoesntExist),
            }),
            ConversationType::Group => match keystore_refusal(before, id) {
                Some(e) => r == Err::<Reception, Error>(e) && after == before,
                None => if keys::latest_key(keys_of(before, id), sender) is Some {
                    r == Ok::<Reception, Error>(Reception::Stored(sender)) && after == before
                } else {
                    &&& r == Ok::<Reception, Error>(Reception::Waiting { ask: false })
                    &&& after == (ConversationInner {
                        pending_key_exchange: after.pending_key_exchange,
                        ..before
                    })
                    &&& pending_view(after.pending_key_exchange@) == set_aside(
                        pending_view(before.pending_key_exchange@),
                        id,
                        (sender, (data, false)),
                    )
                },
            },
        }
    }
}

/// What `ConversationInner::answer_request` does.
pub open spec fn answer_request_post(
    before: ConversationInner,
    after: ConversationInner,
    r: Result<Answer, Error>,
    id: Uuid,
    about: Uuid,
    sender: Did,
    kind: ConversationRequestKind,
    fresh_key: Vec<u8>,
) -> bool {
    if !store::has_conversation(before.conversations@, id) {
        r == Err::<Answer, Error>(Error::InvalidConversation) && after == before
    } else if !(kind is Key) {
        r == Ok::<Answer, Error>(Answer::Nothing) && after == before
    } else {
        match task::exchange_refusal(document_of(before, id), sender) {
            Some(e) => r == Err::<Answer, Error>(e) && after == before,
            None => match keystore_refusal(before, about) {
                Some(e) => r == Err::<Answer, Error>(e) && after == before,
                None => {
                    let own = before.own;
                    let known = keys_of(before, about);
                    match keys::latest_key(known, own) {
                        Some(own_key) => {
                            &&& after == before
                            &&& r matches Ok(Answer::Key { key, save }) && key@ == own_key
                                && !save
                        },
                        None => {
                            &&& after == (ConversationInner {
                                keystores: after.keystores,
                                ..before
                            })
                            &&& lifecycle::keystore_of(
                                after.keystores@,
                                about,
                            ) matches Some(keystore) && keystore.keys@ == known.push(
                                KeyEntry { did: own, key: fresh_key },
                            )
                            &&& lifecycle::same_keystores_but(
                                before.keystores@,
                                after.keystores@,
                                about,
                            )
                            &&& r matches Ok(Answer::Key { key, save }) && key@
                                == fresh_key@ && save
                        },
                    }
                },
            },
        }
    }
}

/// What `ConversationInner::take_response` does.
pub open spec fn take_response_post(
    before: ConversationInner,
    after: ConversationInner,
    r: Result<FollowUp, Error>,
    id: Uuid,
    about: Uuid,
    sender: Did,
    kind: ConversationResponseKind,
) -> bool {
    if !store::has_conversation(before.conversations@, id) {
        r == Err::<FollowUp, Error>(Error::InvalidConversation) && after == before
    } else {
        match kind {
            ConversationResponseKind::Key { key } => match task::exchange_refusal(
                document_of(before, id),
                sender,
            ) {
                Some(e) => r == Err::<FollowUp, Error>(e) && after == before,
                None => match keystore_refusal(before, about) {
                    Some(e) => r == Err::<FollowUp, Error>(e) && after == before,
                    None => match key {
                        Err(e) => r == Err::<FollowUp, Error>(e) && after == before,
                        Ok(key) => {
                            &&& r == Ok::<FollowUp, Error>(FollowUp::SaveKeystore)
                            &&& after == (ConversationInner {
                                keystores: after.keystores,
                                pending_key_exchange: after.pending_key_exchange,
                                ..before
                            })
                            &&& lifecycle::keystore_of(
                                after.keystores@,
                                about,
                            ) matches Some(keystore) && keystore.keys@ == keys_of(
                                before,
                                about,
                            ).push(KeyEntry { did: sender, key })
                            &&& lifecycle::same_keystores_but(
                                before.keystores@,
                                after.keystores@,
                                about,
                            )
                            &&& pending_view(after.pending_key_exchange@) == received(
                                pending_view(before.pending_key_exchange@),
                                about,
                                sender,
                            )
                        },
                    },
                },
            },
            _ => r == Ok::<FollowUp, Error>(FollowUp::Nothing) && after == before,
        }
    }
}

impl ConversationInner {
    fn find_keystore(&self, id: Uuid) -> (r: Option<usize>)
        ensures
            match r {
                Some(i) => {
                    &&& i < self.keystores@.len()
                    &&& self.keystores@[i as int].id == id
                    &&& forall|j: int|
                        i < j < self.keystores@.len() ==> (#[trigger] self.keystores@[j]).id != id
                    &&& lifecycle::keystore_of(self.keystores@, id) == Some(
                        self.keystores@[i as int].keystore,
                    )
                },
                None => lifecycle::keystore_of(self.keystores@, id) is None,
            },
    {
        let ghost all = self.keystores@;
        let mut i: usize = self.keystores.len();
        assert(all.take(i as int) == all);
        while i > 0
            invariant
                all == self.keystores@,
                i <= all.len(),
                forall|j: int| i <= j < all.len() ==> (#[trigger] all[j]).id != id,
                lifecycle::keystore_of(all.take(i as int), id) == lifecycle::keystore_of(all, id),
            decreases i,
        {
            assert(all.take(i as int).drop_last() == all.take(i - 1));
            assert(all.take(i as int).last() == all[i - 1]);
            i = i - 1;
            if self.keystores[i].id == id {
                return Some(i);
            }
        }
        None
    }

    /// Whether the conversation at a position is a group whose keystore is missing.
    pub fn lacks_keystore(&self, i: usize) -> (r: bool)
        requires
            i < self.conversations@.len(),
        ensures
            r == (self.conversations@[i as int].conversation_type is Group
                && lifecycle::keystore_of(
                self.keystores@,
                self.conversations@[i as int].id,
            ) is None),
    {
        self.conversations[i].conversation_type == ConversationType::Group && self.find_keystore(
            self.conversations[i].id,
        ).is_none()
    }

    /// The keystore of a group.
    pub fn get_keystore(&self, id: Uuid) -> (r: Result<&Keystore, Error>)
        ensures
            match keystore_refusal(*self, id) {
                Some(e) => r == Err::<&Keystore, Error>(e),
                None => r matches Ok(keystore) && lifecycle::keystore_of(self.keystores@, id)
                    == Some(*keystore),
            },
    {
        if !self.contains(id) {
            return Err(Error::InvalidConversation);
        }
        match self.find_keystore(id) {
            Some(i) => Ok(&self.keystores[i].keystore),
            None => Err(Error::OtherWithContext(Reason::KeystoreMissing)),
        }
    }

    /// The key for a payload: in a direct conversation the one that is shared with the other
    /// member, in a group the one that a member, or else the own identity, gave last.
    pub fn conversation_key(&self, id: Uuid, member: Option<Did>) -> (r: Result<
        ConversationKey<'_>,
        Error,
    >)
        ensures
            key_post(*self, id, member, r),
    {
        let doc = match self.get(id) {
            Ok(doc) => doc,
            Err(e) => return Err(e),
        };
        match doc.conversation_type {
            ConversationType::Direct => match doc.other_member(self.own) {
                Some(other) => Ok(ConversationKey::Shared(other)),
                None => Err(Error::InvalidConversation),
            },
            ConversationType::Group => {
                let holder: Did = match member {
                    Some(m) => m,
                    None => self.own,
                };
                match self.get_keystore(id) {
                    Err(e) => Err(e),
                    Ok(keystore) => match keystore.get_latest(holder) {
                        Ok(key) => Ok(ConversationKey::Stored(key)),
                        Err(e) => Err(e),
                    },
                }
            },
        }
    }

    /// What the messages of a conversation are read with.
    pub fn pubkey_or_keystore(&self, id: Uuid) -> (r: Result<KeySource<'_>, Error>)
        ensures
            if !store::has_conversation(self.conversations@, id) {
                r == Err::<KeySource<'_>, Error>(Error::InvalidConversation)
            } else {
                let doc = document_of(*self, id);
                match doc.conversation_type {
                    ConversationType::Direct => r == (match doc.counterpart(self.own) {
                        Some(other) => Ok::<KeySource<'_>, Error>(KeySource::Member(other)),
                        None => Err(Error::InvalidConversation),
                    }),
                    ConversationType::Group => match keystore_refusal(*self, id) {
                        Some(e) => r == Err::<KeySource<'_>, Error>(e),
                        None => r matches Ok(KeySource::Keystore(keystore))
                            && lifecycle::keystore_of(self.keystores@, id) == Some(*keystore),
                    },
                }
            },
    {
        let doc = match self.get(id) {
            Ok(doc) => doc,
            Err(e) => return Err(e),
        };
        match doc.conversation_type {
            ConversationType::Direct => match doc.other_member(self.own) {
                Some(other) => Ok(KeySource::Member(other)),
                None => Err(Error::InvalidConversation),
            },
            ConversationType::Group => match self.get_keystore(id) {
                Err(e) => Err(e),
                Ok(keystore) => Ok(KeySource::Keystore(keystore)),
            },
        }
    }

    /// Whether an identity may be asked for its key of a conversation.
    pub fn check_key_request(&self, id: Uuid, did: Did) -> (r: Result<(), Error>)
        ensures
            r == (if !store::has_conversation(self.conversations@, id) {
                Err::<(), Error>(Error::InvalidConversation)
            } else if !document_of(*self, id).spec_recipients().contains(did) {
                Err(Error::PublicKeyInvalid)
            } else {
                Ok(())
            }),
    {
        match self.get(id) {
            Err(e) => Err(e),
            Ok(doc) => if contains_did(&doc.recipients(), did) {
                Ok(())
            } else {
                Err(Error::PublicKeyInvalid)
            },
        }
    }

    /// Sets a payload aside until the key of its sender comes.
    fn set_payload_aside(&mut self, id: Uuid, sender: Did, data: &Vec<u8>)
        ensures
            *final(self) == (ConversationInner {
                pending_key_exchange: final(self).pending_key_exchange,
                ..*old(self)
            }),
            pending_view(final(self).pending_key_exchange@) == set_aside(
                pending_view(old(self).pending_key_exchange@),
                id,
                (sender, (data@, false)),
            ),
    {
        let ghost lists = pending_view(self.pending_key_exchange@);
        let ghost payload = (sender, (data@, false));
        let entry = PendingPayload { did: sender, data: copy_bytes(data), received: false };
        let mut i: usize = 0;
        assert(lists.take(0) + set_aside(lists.skip(0), id, payload) == set_aside(
            lists,
            id,
            payload,
        )) by {
            assert(lists.skip(0) == lists);
        }
        while i < self.pending_key_exchange.len()
            invariant
                *self == *old(self),
                lists == pending_view(self.pending_key_exchange@),
                payload == (sender, (data@, false)),
                entry.did == sender && entry.data@ == data@ && !entry.received,
                i <= lists.len(),
                lists.take(i as int) + set_aside(lists.skip(i as int), id, payload) == set_aside(
                    lists,
                    id,
                    payload,
                ),
            decreases lists.len() - i,
        {
            proof {
                assert(lists.skip(i as int)[0] == lists[i as int]);
                assert(lists.skip(i as int).drop_first() == lists.skip(i + 1));
            }
            if self.pending_key_exchange[i].id == id {
                let ghost before = self.pending_key_exchange@;
                self.pending_key_exchange[i].list.push(entry);
                proof {
                    let after = self.pending_key_exchange@;
                    assert(payloads_view(after[i as int].list@) == payloads_view(
                        before[i as int].list@,
                    ).push(payload));
                    assert(pending_view(after) == lists.update(
                        i as int,
                        (id, lists[i as int].1.push(payload)),
                    ));
                    assert(lists.take(i as int) + lists.skip(i as int).update(
                        0,
                        (id, lists[i as int].1.push(payload)),
                    ) == pending_view(after));
                }
                return;
            }
            proof {
                let tail = set_aside(lists.skip(i + 1), id, payload);
                assert(lists.take(i as int) + (seq![lists[i as int]] + tail) == lists.take(i + 1)
                    + tail);
            }
            i = i + 1;
        }
        let mut list: Vec<PendingPayload> = Vec::new();
        list.push(entry);
        let ghost before = self.pending_key_exchange@;
        self.pending_key_exchange.push(PendingList { id, list });
        proof {
            assert(payloads_view(list@) == seq![payload]);
            assert(lists.take(i as int) == lists);
            assert(pending_view(self.pending_key_exchange@) == lists.push((id, seq![payload])));
            assert(lists + seq![(id, seq![payload])] == lists.push((id, seq![payload])));
        }
    }

    /// What is done with a payload that came by the topic of a conversation. One whose key is not
    /// there is set aside, after the earlier ones of the conversation. Nobody is asked for the key.
    pub fn process_msg_event(&mut self, id: Uuid, sender: Did, data: &Vec<u8>) -> (r: Result<
        Reception,
        Error,
    >)
        ensures
            process_msg_event_post(*old(self), *final(self), r, id, sender, data@),
    {
        match self.get(id) {
            Err(e) => return Err(e),
            Ok(doc) => {
                if doc.conversation_type == ConversationType::Direct {
                    return match doc.other_member(self.own) {
                        Some(other) => Ok(Reception::Shared(other)),
                        None => Err(Error::IdentityDoesntExist),
                    };
                }
            },
        }
        match self.get_keystore(id) {
            Err(e) => return Err(e),
            Ok(keystore) => {
                if keystore.exist(sender) {
                    return Ok(Reception::Stored(sender));
                }
            },
        }
        self.set_payload_aside(id, sender, data);
        Ok(Reception::Waiting { ask: false })
    }

    /// Answers a request that came by the topic of the conversation `id` and speaks of the
    /// conversation `about`. The own key is made where there is none yet.
    pub fn answer_request(
        &mut self,
        id: Uuid,
        about: Uuid,
        sender: Did,
        kind: ConversationRequestKind,
        fresh_key: Vec<u8>,
    ) -> (r: Result<Answer, Error>)
        ensures
            answer_request_post(*old(self), *final(self), r, id, about, sender, kind, fresh_key),
    {
        match self.get(id) {
            Err(e) => return Err(e),
            Ok(doc) => match kind {
                ConversationRequestKind::Key => {
                    if doc.conversation_type != ConversationType::Group {
                        return Err(Error::InvalidConversation);
                    }
                    if !contains_did(&doc.recipients(), sender) {
                        return Err(Error::IdentityDoesntExist);
                    }
                },
                _ => return Ok(Answer::Nothing),
            },
        }
        match self.get_keystore(about) {
            Err(e) => return Err(e),
            Ok(keystore) => match keystore.get_latest(self.own) {
                Ok(key) => return Ok(Answer::Key { key: copy_bytes(key), save: false }),
                Err(_) => {},
            },
        }
        let key = copy_bytes(&fresh_key);
        self.insert_key(about, self.own, fresh_key);
        Ok(Answer::Key { key, save: true })
    }

    /// Adds a key to a keystore that is there.
    fn insert_key(&mut self, id: Uuid, did: Did, key: Vec<u8>)
        requires
            lifecycle::keystore_of(old(self).keystores@, id) is Some,
        ensures
            *final(self) == (ConversationInner { keystores: final(self).keystores, ..*old(self) }),
            lifecycle::keystore_of(final(self).keystores@, id) matches Some(keystore)
                && keystore.keys@ == keys_of(*old(self), id).push(KeyEntry { did, key }),
            lifecycle::same_keystores_but(old(self).keystores@, final(self).keystores@, id),
    {
        match self.find_keystore(id) {
            Some(i) => {
                let ghost before = self.keystores@;
                let mut entry = self.keystores.remove(i);
                entry.keystore.insert(did, key);
                self.keystores.insert(i, entry);
                proof {
                    assert(self.keystores@ == before.update(i as int, entry));
                    lemma_updated_keystore(before, i as int, entry);
                }
            },
            None => {},
        }
    }

    /// Takes a response that came by the topic of the conversation `id` and speaks of the
    /// conversation `about`. A key that comes lets the payloads that wait for it be read.
    pub fn take_response(
        &mut self,
        id: Uuid,
        about: Uuid,
        sender: Did,
        kind: ConversationResponseKind,
    ) -> (r: Result<FollowUp, Error>)
        ensures
            take_response_post(*old(self), *final(self), r, id, about, sender, kind),
    {
        let key = match self.get(id) {
            Err(e) => return Err(e),
            Ok(doc) => match kind {
                ConversationResponseKind::Key { key } => {
                    if doc.conversation_type != ConversationType::Group {
                        return Err(Error::InvalidConversation);
                    }
                    if !contains_did(&doc.recipients(), sender) {
                        return Err(Error::IdentityDoesntExist);
                    }
                    key
                },
                _ => return Ok(FollowUp::Nothing),
            },
        };
        match self.get_keystore(about) {
            Err(e) => return Err(e),
            Ok(_) => {},
        }
        let key = match key {
            Ok(key) => key,
            Err(e) => return Err(e),
        };
        self.insert_key(about, sender, key);
        self.mark_received(about, sender);
        Ok(FollowUp::SaveKeystore)
    }

    /// Notes that the key of a member of a conversation came.
    fn mark_received(&mut self, id: Uuid, sender: Did)
        ensures
            *final(self) == (ConversationInner {
                pending_key_exchange: final(self).pending_key_exchange,
                ..*old(self)
            }),
            pending_view(final(self).pending_key_exchange@) == received(
                pending_view(old(self).pending_key_exchange@),
                id,
                sender,
            ),
    {
        let ghost lists = old(self).pending_key_exchange@;
        let mut i: usize = 0;
        while i < self.pending_key_exchange.len()
            invariant
                lists == old(self).pending_key_exchange@,
                *self == (ConversationInner {
                    pending_key_exchange: self.pending_key_exchange,
                    ..*old(self)
                }),
                i <= lists.len(),
                self.pending_key_exchange@.len() == lists.len(),
                forall|j: int|
                    i <= j < lists.len() ==> #[trigger] self.pending_key_exchange@[j] == lists[j],
                forall|j: int|
                    0 <= j < i ==> #[trigger] pending_view(self.pending_key_exchange@)[j]
                        == received(pending_view(lists), id, sender)[j],
            decreases lists.len() - i,
        {
            let ghost before = self.pending_key_exchange@;
            if self.pending_key_exchange[i].id == id {
                mark_list(&mut self.pending_key_exchange[i].list, sender);
            }
            proof {
                let after = self.pending_key_exchange@;
                assert(pending_view(after)[i as int] == received(
                    pending_view(lists),
                    id,
                    sender,
                )[i as int]);
                assert forall|j: int| 0 <= j < i implies #[trigger] pending_view(after)[j]
                    == received(pending_view(lists), id, sender)[j] by {
                    assert(after[j] == before[j]);
                    assert(pending_view(before)[j] == pending_view(after)[j]);
                }
            }
            i = i + 1;
        }
    }
}

/// Notes in a list of payloads that the key of a member came.
fn mark_list(list: &mut Vec<PendingPayload>, sender: Did)
    ensures
        payloads_view(final(list)@) == received_from(payloads_view(old(list)@), sender),
{
    let ghost all = old(list)@;
    let mut i: usize = 0;
    while i < list.len()
        invariant
            all == old(list)@,
            i <= all.len(),
            list@.len() == all.len(),
            forall|j: int| i <= j < all.len() ==> #[trigger] list@[j] == all[j],
            forall|j: int|
                0 <= j < i ==> #[trigger] payloads_view(list@)[j] == received_from(
                    payloads_view(all),
                    sender,
                )[j],
        decreases all.len() - i,
    {
        let ghost before = list@;
        if list[i].did == sender {
            list[i].received = true;
        }
        proof {
            assert(payloads_view(list@)[i as int] == received_from(
                payloads_view(all),
                sender,
            )[i as int]);
            assert forall|j: int| 0 <= j < i implies #[trigger] payloads_view(list@)[j]
                == received_from(payloads_view(all), sender)[j] by {
                assert(list@[j] == before[j]);
                assert(payloads_view(before)[j] == payloads_view(list@)[j]);
            }
        }
        i = i + 1;
    }
}

/// Changing the keystore that is found changes no other.
proof fn lemma_updated_keystore(
    before: Seq<store::StoredKeystore>,
    i: int,
    entry: store::StoredKeystore,
)
    requires
        0 <= i < before.len(),
        before[i].id == entry.id,
        forall|j: int| i < j < before.len() ==> (#[trigger] before[j]).id != entry.id,
    ensures
        lifecycle::same_keystores_but(before, before.update(i, entry), entry.id),
        lifecycle::keystore_of(before.update(i, entry), entry.id) == Some(entry.keystore),
    decreases before.len(),
{
    let after = before.update(i, entry);
    if i == before.len() - 1 {
        assert(after.drop_last() == before.drop_last());
    } else {
        assert(after.drop_last() == before.drop_last().update(i, entry));
        lemma_updated_keystore(before.drop_last(), i, entry);
        assert forall|other: Uuid| other != entry.id implies #[trigger] lifecycle::keystore_of(
            after,
            other,
        ) == lifecycle::keystore_of(before, other) by {
            assert(lifecycle::keystore_of(after.drop_last(), other) == lifecycle::keystore_of(
                before.drop_last(),
                other,
            ));
        }
    }
}

} // verus!
