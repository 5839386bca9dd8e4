//! The task of one conversation: its document with what surrounds it while it is open.
use vstd::prelude::*;
use indexmap::{IndexMap, IndexSet};
use crate::error::Error;
use crate::ids::{contains_did, Did, Uuid};
use crate::ordered::{
    self, dids_contains, dids_insert, dids_new, dids_swap_remove, pending_at, pending_get,
    pending_insert, pending_len, pending_new,
};
use super::document::{self, ConversationDocument};
use super::keys::{self, copy_bytes, KeyEntry, Keystore};
use super::members;
use super::queue::{self, Queue, QueueItem};
use super::{ConversationType, Limits, MessageEvent, MessageStatus, Outgoing};

verus! {

pub struct ConversationTask {
    /// The own identity.
    pub own: Did,
    pub document: ConversationDocument,
    pub keystore: Keystore,
    /// The payloads of members whose keys are not there yet, and whether the key has come.
    pub pending_key_exchange: IndexMap<(u128, u128), (Vec<u8>, bool)>,
    /// The members who were asked for their keys.
    pub pending_key_request_sent: IndexSet<(u128, u128)>,
    /// The members who were asked for a sign of life and may still give it.
    pub pending_ping_response: IndexSet<(u128, u128)>,
    pub queue: Queue,
    pub limits: Limits,
}

/// The key for a payload.
pub enum ConversationKey<'a> {
    /// The key that is shared with a member.
    Shared(Did),
    /// A key of the keystore.
    Stored(&'a Vec<u8>),
}

/// What is done with a payload that came by the topic of the conversation.
#[derive(Clone, Copy, PartialEq, Eq, Structural, Debug)]
pub enum Reception {
    /// It is decrypted with the key that is shared with a member.
    Shared(Did),
    /// It is decrypted with the key that a member gave last.
    Stored(Did),
    /// It waits for the key of its sender, who is asked for it where that was not done yet.
    Waiting { ask: bool },
}

/// A request of another member.
#[derive(Clone, Copy, PartialEq, Eq, Structural, Debug)]
pub enum ConversationRequestKind {
    Key,
    Ping,
    Other,
}

/// A response of another member. A key comes with what it decrypts to.
pub enum ConversationResponseKind {
    Key { key: Result<Vec<u8>, Error> },
    Pong,
    Other,
}

/// What a request is answered.
pub enum Answer {
    /// The own key. `save` says whether the keystore has to be stored before.
    Key { key: Vec<u8>, save: bool },
    Pong,
    Nothing,
}

/// What follows from a response.
#[derive(Clone, Copy, PartialEq, Eq, Structural, Debug)]
pub enum FollowUp {
    /// The keystore has to be stored.
    SaveKeystore,
    /// The member is asked for its key.
    RequestKey(Did),
    Nothing,
}

/// Whether a member has to be asked for its key: it was not asked yet. Nobody else is asked.
pub open spec fn key_request(task: ConversationTask, did: Did) -> Result<bool, Error> {
    if ordered::did_values(task.pending_key_request_sent).contains(did) {
        Ok(false)
    } else if !task.document.spec_recipients().contains(did) {
        Err(Error::PublicKeyInvalid)
    } else {
        Ok(true)
    }
}

/// Why keys are not exchanged with a member: only those of a group have them.
pub open spec fn exchange_refusal(doc: ConversationDocument, sender: Did) -> Option<Error> {
    if !(doc.conversation_type is Group) {
        Some(Error::InvalidConversation)
    } else if !doc.spec_recipients().contains(sender) {
        Some(Error::IdentityDoesntExist)
    } else {
        None
    }
}

/// The payloads whose keys have come, in order.
pub open spec fn arrived(entries: Seq<(Did, (Seq<u8>, bool))>) -> Seq<(Did, Seq<u8>)>
    decreases entries.len(),
{
    if entries.len() == 0 {
        Seq::empty()
    } else {
        let (did, (data, received)) = entries.last();
        let rest = arrived(entries.drop_last());
        if received {
            rest.push((did, data))
        } else {
            rest
        }
    }
}

/// The payloads whose keys have not come, in order.
pub open spec fn still_waiting(
    entries: Seq<(Did, (Seq<u8>, bool))>,
) -> Seq<(Did, (Seq<u8>, bool))> {
    entries.filter(|entry: (Did, (Seq<u8>, bool))| !entry.1.1)
}

/// A set of identities after others were inserted, one after the other.
pub open spec fn all_inserted(dids: Seq<Did>, others: Seq<Did>) -> Seq<Did>
    decreases others.len(),
{
    if others.len() == 0 {
        dids
    } else {
        ordered::set_inserted(all_inserted(dids, others.drop_last()), others.last())
    }
}

/// What `ConversationTask::activity` returns.
pub open spec fn activity_post(
    task: ConversationTask,
    r: Result<Outgoing, Error>,
    event: MessageEvent,
    cancelled: bool,
) -> bool {
    match task.document.conversation_type {
        ConversationType::Direct => match task.document.key_refusal(task.own) {
            Some(e) => r == Err::<Outgoing, Error>(e),
            None => r == Ok::<Outgoing, Error>(
                Outgoing::Event { member: task.own, event, cancelled },
            ),
        },
        ConversationType::Group => if keys::latest_key(task.keystore.keys@, task.own) is Some {
            r == Ok::<Outgoing, Error>(Outgoing::Event { member: task.own, event, cancelled })
        } else {
            r == Err::<Outgoing, Error>(Error::PublicKeyDoesntExist)
        },
    }
}

/// A payload whose key has come.
pub struct Arrival {
    pub sender: Did,
    pub data: Vec<u8>,
}

pub open spec fn arrivals_view(arrivals: Seq<Arrival>) -> Seq<(Did, Seq<u8>)> {
    arrivals.map_values(|a: Arrival| (a.sender, a.data@))
}

/// What `ConversationTask::process_msg_event` does.
pub open spec fn process_msg_event_post(
    before: ConversationTask,
    after: ConversationTask,
    r: Result<Reception, Error>,
    sender: Did,
    data: Seq<u8>,
) -> bool {
    match before.document.conversation_type {
        ConversationType::Direct => after == before && r == (match before.document.counterpart(
            before.own,
        ) {
            Some(other) => Ok::<Reception, Error>(Reception::Shared(other)),
            None => Err(Error::IdentityDoesntExist),
        }),
        ConversationType::Group => if keys::latest_key(before.keystore.keys@, sender) is Some {
            after == before && r == Ok::<Reception, Error>(Reception::Stored(sender))
        } else {
            &&& r == Ok::<Reception, Error>(
                Reception::Waiting { ask: key_request(before, sender) == Ok::<bool, Error>(true) },
            )
            &&& after == (ConversationTask {
                pending_key_exchange: after.pending_key_exchange,
                ..before
            })
            &&& ordered::pending_entries(after.pending_key_exchange) == ordered::inserted(
                ordered::pending_entries(before.pending_key_exchange),
                sender,
                (data, false),
            )
        },
    }
}

/// What `ConversationTask::answer_request` does.
pub open spec fn answer_request_post(
    before: ConversationTask,
    after: ConversationTask,
    r: Result<Answer, Error>,
    sender: Did,
    kind: ConversationRequestKind,
    fresh_key: Vec<u8>,
) -> bool {
    &&& after == (ConversationTask { keystore: after.keystore, ..before })
    &&& match kind {
        ConversationRequestKind::Key => match exchange_refusal(
            before.document,
            sender,
        ) {
            Some(e) => r == Err::<Answer, Error>(e) && after == before,
            None => match keys::latest_key(before.keystore.keys@, before.own) {
                Some(own_key) => {
                    &&& after == before
                    &&& r matches Ok(Answer::Key { key, save }) && key@ == own_key && !save
                },
                None => {
                    &&& after.keystore.keys@ == before.keystore.keys@.push(
                        KeyEntry { did: before.own, key: fresh_key },
                    )
                    &&& r matches Ok(Answer::Key { key, save }) && key@ == fresh_key@
                        && save
                },
            },
        },
        ConversationRequestKind::Ping => r == Ok::<Answer, Error>(Answer::Pong)
            && after == before,
        ConversationRequestKind::Other => r == Ok::<Answer, Error>(Answer::Nothing)
            && after == before,
    }
}

/// What `ConversationTask::take_response` does.
pub open spec fn take_response_post(
    before: ConversationTask,
    after: ConversationTask,
    r: Result<FollowUp, Error>,
    sender: Did,
    kind: ConversationResponseKind,
) -> bool {
    match kind {
        ConversationResponseKind::Key { key } => match exchange_refusal(
            before.document,
            sender,
        ) {
            Some(e) => r == Err::<FollowUp, Error>(e) && after == before,
            None => match key {
                Err(e) => r == Err::<FollowUp, Error>(e) && after == before,
                Ok(key) => {
                    let waiting = ordered::pending_entries(before.pending_key_exchange);
                    &&& r == Ok::<FollowUp, Error>(FollowUp::SaveKeystore)
                    &&& after == (ConversationTask {
                        keystore: after.keystore,
                        pending_key_exchange: after.pending_key_exchange,
                        ..before
                    })
                    &&& after.keystore.keys@ == before.keystore.keys@.push(
                        KeyEntry { did: sender, key },
                    )
                    &&& ordered::pending_entries(after.pending_key_exchange)
                        == (match ordered::lookup(waiting, sender) {
                        Some((data, _)) => ordered::inserted(waiting, sender, (data, true)),
                        None => waiting,
                    })
                },
            },
        },
        ConversationResponseKind::Pong => {
            let pinged = ordered::did_values(before.pending_ping_response);
            &&& after == (ConversationTask {
                pending_ping_response: after.pending_ping_response,
                ..before
            })
            &&& ordered::did_values(after.pending_ping_response)
                == ordered::set_swap_removed(pinged, sender)
            &&& r == (if !pinged.contains(sender) || before.document.conversation_type is Direct {
                Ok::<FollowUp, Error>(FollowUp::Nothing)
            } else if !before.document.spec_recipients().contains(sender) {
                Err(Error::IdentityDoesntExist)
            } else if keys::latest_key(before.keystore.keys@, sender) is Some {
                Ok(FollowUp::Nothing)
            } else if key_request(before, sender) == Ok::<bool, Error>(true) {
                Ok(FollowUp::RequestKey(sender))
            } else {
                Ok(FollowUp::Nothing)
            })
        },
        ConversationResponseKind::Other => r == Ok::<FollowUp, Error>(FollowUp::Nothing)
            && after == before,
    }
}

impl ConversationTask {
    /// The document and the queue are well formed.
    pub open spec fn well_formed(self) -> bool {
        self.document.well_formed() && self.queue.well_formed()
    }

    /// Opens a conversation. A group without a stored keystore gets a new one, with a fresh key of
    /// the own identity; the keystore that is stored in its place is returned, and is empty.
    pub fn new(
        own: Did,
        document: ConversationDocument,
        stored: Option<Keystore>,
        fresh_key: Vec<u8>,
        queue: Option<Queue>,
        limits: Limits,
    ) -> (r: (ConversationTask, Option<Keystore>))
        requires
            queue matches Some(q) ==> q.well_formed(),
        ensures
            r.0.own == own,
            r.0.document == document,
            r.0.limits == limits,
            r.0.queue.well_formed(),
            match queue {
                Some(q) => r.0.queue == q,
                None => r.0.queue@.len() == 0,
            },
            ordered::pending_entries(r.0.pending_key_exchange).len() == 0,
            ordered::did_values(r.0.pending_key_request_sent).len() == 0,
            ordered::did_values(r.0.pending_ping_response).len() == 0,
            match document.conversation_type {
                ConversationType::Direct => r.0.keystore.keys@.len() == 0 && r.1 is None,
                ConversationType::Group => match stored {
                    Some(store) => r.0.keystore == store && r.1 is None,
                    None => {
                        &&& r.0.keystore.keys@ == seq![KeyEntry { did: own, key: fresh_key }]
                        &&& r.1 matches Some(empty) && empty.keys@.len() == 0
                    },
                },
            },
    {
        let mut to_store: Option<Keystore> = None;
        let keystore = match document.conversation_type {
            ConversationType::Direct => Keystore::new(),
            ConversationType::Group => match stored {
                Some(store) => store,
                None => {
                    let mut store = Keystore::new();
                    store.insert(own, fresh_key);
                    assert(store.keys@ == seq![KeyEntry { did: own, key: fresh_key }]);
                    to_store = Some(Keystore::new());
                    store
                },
            },
        };
        let queue = match queue {
            Some(queue) => queue,
            None => Queue::new(),
        };
        (
            ConversationTask {
                own,
                document,
                keystore,
                pending_key_exchange: pending_new(),
                pending_key_request_sent: dids_new(),
                pending_ping_response: dids_new(),
                queue,
                limits,
            },
            to_store,
        )
    }

    /// The key for a payload: in a direct conversation the one that is shared with the other
    /// member, in a group the one that a member, or else the own identity, gave last.
    pub fn conversation_key(&self, member: Option<Did>) -> (r: Result<ConversationKey<'_>, Error>)
        ensures
            match self.document.conversation_type {
                ConversationType::Direct => match self.document.counterpart(self.own) {
                    Some(other) => r == Ok::<ConversationKey<'_>, Error>(
                        ConversationKey::Shared(other),
                    ),
                    None => r == Err::<ConversationKey<'_>, Error>(Error::InvalidConversation),
                },
                ConversationType::Group => {
                    let holder = match member {
                        Some(m) => m,
                        None => self.own,
                    };
                    match r {
                        Ok(ConversationKey::Stored(key)) => keys::latest_key(
                            self.keystore.keys@,
                            holder,
                        ) == Some(key@),
                        Ok(ConversationKey::Shared(_)) => false,
                        Err(e) => keys::latest_key(self.keystore.keys@, holder) is None && e
                            == Error::PublicKeyDoesntExist,
                    }
                },
            },
    {
        match self.document.conversation_type {
            ConversationType::Direct => match self.document.other_member(self.own) {
                Some(other) => Ok(ConversationKey::Shared(other)),
                None => Err(Error::InvalidConversation),
            },
            ConversationType::Group => {
                let holder: Did = match member {
                    Some(m) => m,
                    None => self.own,
                };
                match self.keystore.get_latest(holder) {
                    Ok(key) => Ok(ConversationKey::Stored(key)),
                    Err(e) => Err(e),
                }
            },
        }
    }

    /// Whether a member has to be asked for its key.
    pub fn check_key_request(&self, did: Did) -> (r: Result<bool, Error>)
        ensures
            r == key_request(*self, did),
    {
        if dids_contains(&self.pending_key_request_sent, did) {
            return Ok(false);
        }
        if !contains_did(&self.document.recipients(), did) {
            return Err(Error::PublicKeyInvalid);
        }
        Ok(true)
    }

    /// Lets a payload for one identity wait, where it could not be delivered.
    pub fn queue_undelivered(&mut self, did: Did, delivered: bool, topic: String, data: Vec<u8>)
        requires
            old(self).queue.well_formed(),
        ensures
            *final(self) == (ConversationTask { queue: final(self).queue, ..*old(self) }),
            final(self).queue.well_formed(),
            if delivered {
                final(self).queue == old(self).queue
            } else {
                final(self).queue@ == queue::queued(
                    old(self).queue@,
                    did,
                    queue::QueueItemView {
                        id: old(self).document.id,
                        m_id: None,
                        peer: did,
                        topic: topic@,
                        data: data@,
                        sent: false,
                    },
                )
            },
    {
        if !delivered {
            let item = QueueItem::direct(self.document.id, None, did, topic, data);
            self.queue.queue_event(did, item);
        }
    }

    /// Notes that a member was asked for its key. The request waits where it could not be
    /// delivered.
    pub fn key_requested(&mut self, did: Did, delivered: bool, topic: String, data: Vec<u8>)
        requires
            old(self).queue.well_formed(),
        ensures
            *final(self) == (ConversationTask {
                queue: final(self).queue,
                pending_key_request_sent: final(self).pending_key_request_sent,
                ..*old(self)
            }),
            ordered::did_values(final(self).pending_key_request_sent) == ordered::set_inserted(
                ordered::did_values(old(self).pending_key_request_sent),
                did,
            ),
            final(self).queue.well_formed(),
            if delivered {
                final(self).queue == old(self).queue
            } else {
                final(self).queue@ == queue::queued(
                    old(self).queue@,
                    did,
                    queue::QueueItemView {
                        id: old(self).document.id,
                        m_id: None,
                        peer: did,
                        topic: topic@,
                        data: data@,
                        sent: false,
                    },
                )
            },
    {
        self.queue_undelivered(did, delivered, topic, data);
        dids_insert(&mut self.pending_key_request_sent, did);
    }

    /// What is done with a payload that came by the topic of the conversation. One whose key is
    /// not there is set aside, in place of an earlier one of the same sender.
    pub fn process_msg_event(&mut self, sender: Did, data: &Vec<u8>) -> (r: Result<
        Reception,
        Error,
    >)
        ensures
            process_msg_event_post(*old(self), *final(self), r, sender, data@),
    {
        match self.document.conversation_type {
            ConversationType::Direct => match self.document.other_member(self.own) {
                Some(other) => Ok(Reception::Shared(other)),
                None => Err(Error::IdentityDoesntExist),
            },
            ConversationType::Group => {
                if self.keystore.exist(sender) {
                    return Ok(Reception::Stored(sender));
                }
                let ask: bool = match self.check_key_request(sender) {
                    Ok(ask) => ask,
                    Err(_) => false,
                };
                pending_insert(&mut self.pending_key_exchange, sender, copy_bytes(data), false);
                Ok(Reception::Waiting { ask })
            },
        }
    }

    /// Answers a request of another member. The own key is made where there is none yet.
    pub fn answer_request(
        &mut self,
        sender: Did,
        kind: ConversationRequestKind,
        fresh_key: Vec<u8>,
    ) -> (r: Result<Answer, Error>)
        ensures
            answer_request_post(*old(self), *final(self), r, sender, kind, fresh_key),
    {
        match kind {
            ConversationRequestKind::Key => {
                if self.document.conversation_type != ConversationType::Group {
                    return Err(Error::InvalidConversation);
                }
                if !contains_did(&self.document.recipients(), sender) {
                    return Err(Error::IdentityDoesntExist);
                }
                match self.keystore.get_latest(self.own) {
                    Ok(key) => return Ok(Answer::Key { key: copy_bytes(key), save: false }),
                    Err(_) => {},
                }
                let key = copy_bytes(&fresh_key);
                self.keystore.insert(self.own, fresh_key);
                Ok(Answer::Key { key, save: true })
            },
            ConversationRequestKind::Ping => Ok(Answer::Pong),
            ConversationRequestKind::Other => Ok(Answer::Nothing),
        }
    }

    /// Takes a response of another member. A key that comes lets the payload that waits for it be
    /// read. A sign of life that nobody asked for is passed over; one from a member whose key is
    /// not there leads to a request for it.
    pub fn take_response(&mut self, sender: Did, kind: ConversationResponseKind) -> (r: Result<
        FollowUp,
        Error,
    >)
        ensures
            take_response_post(*old(self), *final(self), r, sender, kind),
    {
        match kind {
            ConversationResponseKind::Key { key } => {
                if self.document.conversation_type != ConversationType::Group {
                    return Err(Error::InvalidConversation);
                }
                if !contains_did(&self.document.recipients(), sender) {
                    return Err(Error::IdentityDoesntExist);
                }
                let key = match key {
                    Ok(key) => key,
                    Err(e) => return Err(e),
                };
                self.keystore.insert(sender, key);
                let waiting: Option<Vec<u8>> = match pending_get(
                    &self.pending_key_exchange,
                    sender,
                ) {
                    Some((data, _)) => Some(copy_bytes(data)),
                    None => None,
                };
                match waiting {
                    Some(data) => {
                        pending_insert(&mut self.pending_key_exchange, sender, data, true);
                    },
                    None => {},
                }
                Ok(FollowUp::SaveKeystore)
            },
            ConversationResponseKind::Pong => {
                if !dids_swap_remove(&mut self.pending_ping_response, sender) {
                    return Ok(FollowUp::Nothing);
                }
                if self.document.conversation_type == ConversationType::Direct {
                    return Ok(FollowUp::Nothing);
                }
                if !contains_did(&self.document.recipients(), sender) {
                    return Err(Error::IdentityDoesntExist);
                }
                if self.keystore.exist(sender) {
                    return Ok(FollowUp::Nothing);
                }
                match self.check_key_request(sender) {
                    Ok(true) => Ok(FollowUp::RequestKey(sender)),
                    _ => Ok(FollowUp::Nothing),
                }
            },
            ConversationResponseKind::Other => Ok(FollowUp::Nothing),
        }
    }

    /// Notes that a member was asked for a sign of life.
    pub fn ping(&mut self, did: Did)
        ensures
            *final(self) == (ConversationTask {
                pending_ping_response: final(self).pending_ping_response,
                ..*old(self)
            }),
            ordered::did_values(final(self).pending_ping_response) == ordered::set_inserted(
                ordered::did_values(old(self).pending_ping_response),
                did,
            ),
    {
        dids_insert(&mut self.pending_ping_response, did);
    }

    /// Notes that everyone in the conversation was asked for a sign of life, and returns whom to
    /// ask.
    pub fn ping_all(&mut self) -> (r: Vec<Did>)
        ensures
            r@ == old(self).document.spec_recipients(),
            *final(self) == (ConversationTask {
                pending_ping_response: final(self).pending_ping_response,
                ..*old(self)
            }),
            ordered::did_values(final(self).pending_ping_response) == all_inserted(
                ordered::did_values(old(self).pending_ping_response),
                old(self).document.spec_recipients(),
            ),
    {
        let recipients = self.document.recipients();
        let mut i: usize = 0;
        assert(recipients@.take(0) == Seq::<Did>::empty());
        while i < recipients.len()
            invariant
                i <= recipients@.len(),
                *self == (ConversationTask {
                    pending_ping_response: self.pending_ping_response,
                    ..*old(self)
                }),
                ordered::did_values(self.pending_ping_response) == all_inserted(
                    ordered::did_values(old(self).pending_ping_response),
                    recipients@.take(i as int),
                ),
            decreases recipients@.len() - i,
        {
            assert(recipients@.take(i + 1).drop_last() == recipients@.take(i as int));
            self.ping(recipients[i]);
            i = i + 1;
        }
        assert(recipients@.take(recipients@.len() as int) == recipients@);
        recipients
    }

    /// Notes that a member gave no sign of life in time.
    pub fn ping_expired(&mut self, did: Did)
        ensures
            *final(self) == (ConversationTask {
                pending_ping_response: final(self).pending_ping_response,
                ..*old(self)
            }),
            ordered::did_values(final(self).pending_ping_response) == ordered::set_swap_removed(
                ordered::did_values(old(self).pending_ping_response),
                did,
            ),
    {
        dids_swap_remove(&mut self.pending_ping_response, did);
    }

    /// Takes out the payloads whose keys have come. They are read next.
    pub fn process_pending_payload(&mut self) -> (r: Vec<Arrival>)
        ensures
            *final(self) == (ConversationTask {
                pending_key_exchange: final(self).pending_key_exchange,
                ..*old(self)
            }),
            arrivals_view(r@) == arrived(ordered::pending_entries(old(self).pending_key_exchange)),
            ordered::pending_entries(final(self).pending_key_exchange) == still_waiting(
                ordered::pending_entries(old(self).pending_key_exchange),
            ),
    {
        let ghost entries = ordered::pending_entries(self.pending_key_exchange);
        let n: usize = pending_len(&self.pending_key_exchange);
        let mut kept = pending_new();
        let mut r: Vec<Arrival> = Vec::new();
        let mut i: usize = 0;
        proof {
            reveal(Seq::filter);
            assert(entries.take(0) == Seq::<(Did, (Seq<u8>, bool))>::empty());
            assert(arrivals_view(r@) == arrived(entries.take(0)));
        }
        while i < n
            invariant
                n == entries.len(),
                entries == ordered::pending_entries(self.pending_key_exchange),
                *self == *old(self),
                i <= n,
                arrivals_view(r@) == arrived(entries.take(i as int)),
                ordered::pending_entries(kept) == still_waiting(entries.take(i as int)),
                forall|k: int|
                    0 <= k < ordered::pending_entries(kept).len() ==> exists|j: int|
                        0 <= j < i && entries[j].0 == (#[trigger] ordered::pending_entries(
                            kept,
                        )[k]).0,
            decreases n - i,
        {
            proof {
                reveal(Seq::filter);
                assert(entries.take(i + 1).drop_last() == entries.take(i as int));
                assert(entries.take(i + 1).last() == entries[i as int]);
            }
            match pending_at(&self.pending_key_exchange, i) {
                Some((did, data, received)) => {
                    if received {
                        let ghost before = r@;
                        r.push(Arrival { sender: did, data: copy_bytes(data) });
                        assert(arrivals_view(r@) == arrivals_view(before).push((did, data@)));
                        assert forall|k: int|
                            0 <= k < ordered::pending_entries(kept).len() implies exists|j: int|
                            0 <= j < i + 1 && entries[j].0 == (#[trigger] ordered::pending_entries(
                                kept,
                            )[k]).0 by {
                            let j = choose|j: int|
                                0 <= j < i && entries[j].0 == ordered::pending_entries(kept)[k].0;
                            assert(entries[j].0 == ordered::pending_entries(kept)[k].0);
                        }
                    } else {
                        let ghost before = ordered::pending_entries(kept);
                        pending_insert(&mut kept, did, copy_bytes(data), false);
                        proof {
                            assert(!ordered::has_key(before, did)) by {
                                if ordered::has_key(before, did) {
                                    let k = ordered::key_index(before, did);
                                    assert(before[k].0 == did);
                                    let j = choose|j: int|
                                        0 <= j < i && entries[j].0 == before[k].0;
                                    assert(entries[j].0 != did);
                                }
                            }
                            let after = ordered::pending_entries(kept);
                            assert(after == before.push((did, (data@, false))));
                            assert forall|k: int| 0 <= k < after.len() implies exists|j: int|
                                0 <= j < i + 1 && entries[j].0 == (#[trigger] after[k]).0 by {
                                if k < before.len() {
                                    assert(after[k] == before[k]);
                                    let j = choose|j: int|
                                        0 <= j < i && entries[j].0 == before[k].0;
                                    assert(entries[j].0 == after[k].0);
                                } else {
                                    assert(entries[i as int].0 == after[k].0);
                                }
                            }
                        }
                    }
                },
                None => {},
            }
            i = i + 1;
        }
        assert(entries.take(entries.len() as int) == entries);
        self.pending_key_exchange = kept;
        r
    }

    /// Lets what is published wait for each other member who does not listen, where `queue` is
    /// set. Returns whether another member listens.
    pub fn publish(
        &mut self,
        message_id: Option<Uuid>,
        listening: &Vec<Did>,
        topic: &String,
        data: &Vec<u8>,
        queue: bool,
    ) -> (r: bool)
        requires
            old(self).queue.well_formed(),
        ensures
            *final(self) == (ConversationTask { queue: final(self).queue, ..*old(self) }),
            final(self).queue.well_formed(),
            r == queue::someone_listens(
                old(self).document.spec_recipients(),
                old(self).own,
                listening@,
            ),
            final(self).queue@ == (if queue {
                queue::published(
                    old(self).queue@,
                    old(self).document.spec_recipients(),
                    old(self).own,
                    listening@,
                    queue::QueueItemView {
                        id: old(self).document.id,
                        m_id: message_id,
                        peer: old(self).own,
                        topic: topic@,
                        data: data@,
                        sent: false,
                    },
                )
            } else {
                old(self).queue@
            }),
    {
        let recipients = self.document.recipients();
        self.queue.publish(
            &recipients,
            self.own,
            listening,
            self.document.id,
            message_id,
            topic,
            data,
            queue,
        )
    }

    /// What is known of the delivery of a message. Nothing is known of one in a group.
    pub fn message_status(&self, message_id: Uuid) -> (r: Result<MessageStatus, Error>)
        ensures
            r == (if self.document.conversation_type is Group {
                Err::<MessageStatus, Error>(Error::Unimplemented)
            } else if !document::has_message(self.document.messages@, message_id) {
                Err(Error::MessageNotFound)
            } else {
                Ok(MessageStatus::Sent)
            }),
    {
        if self.document.conversation_type == ConversationType::Group {
            return Err(Error::Unimplemented);
        }
        if !self.document.contains(message_id) {
            return Err(Error::MessageNotFound);
        }
        Ok(MessageStatus::Sent)
    }

    /// A sign of activity of the own identity, to be sent to the other members, or the sign that
    /// it ended. It needs the own key of a group.
    pub fn activity(&self, event: MessageEvent, cancelled: bool) -> (r: Result<Outgoing, Error>)
        ensures
            activity_post(*self, r, event, cancelled),
    {
        match self.conversation_key(None) {
            Ok(_) => Ok(Outgoing::Event { member: self.own, event, cancelled }),
            Err(e) => Err(e),
        }
    }
}

} // verus!
