//! What the store publishes, what waits to be delivered, and what is known of a delivery.
use vstd::prelude::*;
use crate::error::Error;
use crate::ids::{self, without_did, Did, Uuid};
use super::document;
use super::exchange;
use super::queue::{self, Delivery, QueueItem};
use super::store::{self, ConversationInner, PendingList, PendingPayload};
use super::task;
use super::{ConversationType, MessageEvent, MessageStatus, Outgoing};

verus! {

/// The payloads of a list whose keys have come, and those whose keys have not, split in order.
fn split_list(list: Vec<PendingPayload>, id: Uuid) -> (r: (
    Vec<exchange::StoredArrival>,
    Vec<PendingPayload>,
))
    ensures
        exchange::stored_arrivals_view(r.0@) == task::arrived(
            exchange::payloads_view(list@),
        ).map_values(|a: (Did, Seq<u8>)| (id, a)),
        exchange::payloads_view(r.1@) == task::still_waiting(exchange::payloads_view(list@)),
{
    let ghost all = exchange::payloads_view(list@);
    let ghost given = list@;
    let mut rest = list;
    let n: usize = rest.len();
    let mut come: Vec<exchange::StoredArrival> = Vec::new();
    let mut kept: Vec<PendingPayload> = Vec::new();
    let mut k: usize = 0;
    proof {
        reveal(Seq::filter);
        assert(given.skip(0) == given);
        assert(all.take(0) == Seq::<(Did, (Seq<u8>, bool))>::empty());
        assert(task::arrived(all.take(0)).map_values(|a: (Did, Seq<u8>)| (id, a)) == Seq::<
            (Uuid, (Did, Seq<u8>)),
        >::empty());
    }
    while k < n
        invariant
            n == given.len(),
            k <= n,
            all == exchange::payloads_view(given),
            rest@ == given.skip(k as int),
            exchange::stored_arrivals_view(come@) == task::arrived(
                all.take(k as int),
            ).map_values(|a: (Did, Seq<u8>)| (id, a)),
            exchange::payloads_view(kept@) == task::still_waiting(all.take(k as int)),
        decreases n - k,
    {
        let ghost before = come@;
        let ghost held = kept@;
        assert(rest@[0] == given[k as int]);
        let payload = rest.remove(0);
        proof {
            reveal(Seq::filter);
            assert(rest@ == given.skip(k + 1));
            assert(all.take(k + 1).drop_last() == all.take(k as int));
            assert(all.take(k + 1).last() == (payload.did, (payload.data@, payload.received)));
        }
        if payload.received {
            let ghost data = payload.data@;
            come.push(
                exchange::StoredArrival {
                    conversation_id: id,
                    sender: payload.did,
                    data: payload.data,
                },
            );
            proof {
                assert(exchange::stored_arrivals_view(come@) == exchange::stored_arrivals_view(
                    before,
                ).push((id, (payload.did, data))));
                let arrived = task::arrived(all.take(k as int));
                assert(arrived.push((payload.did, data)).map_values(
                    |a: (Did, Seq<u8>)| (id, a),
                ) == arrived.map_values(|a: (Did, Seq<u8>)| (id, a)).push(
                    (id, (payload.did, data)),
                ));
            }
        } else {
            kept.push(payload);
            assert(exchange::payloads_view(kept@) == exchange::payloads_view(held).push(
                (payload.did, (payload.data@, false)),
            ));
        }
        k = k + 1;
    }
    assert(all.take(n as int) == all);
    (come, kept)
}

/// What `ConversationInner::message_status` returns.
pub open spec fn message_status_of(
    inner: ConversationInner,
    id: Uuid,
    message_id: Uuid,
) -> Result<MessageStatus, Error> {
    let doc = exchange::document_of(inner, id);
    if !store::has_conversation(inner.conversations@, id) {
        Err(Error::InvalidConversation)
    } else if doc.conversation_type is Group {
        Err(Error::Unimplemented)
    } else if !document::has_message(doc.messages@, message_id) {
        Err(Error::MessageNotFound)
    } else if exchange::waits_for_any(
        inner.queue@,
        ids::without(doc.spec_recipients(), inner.own),
        id,
        message_id,
    ) {
        Ok(MessageStatus::NotSent)
    } else {
        Ok(MessageStatus::Sent)
    }
}

impl ConversationInner {
    /// Takes out the payloads whose keys have come. They are read next.
    pub fn process_pending_payload(&mut self) -> (r: Vec<exchange::StoredArrival>)
        ensures
            *final(self) == (ConversationInner {
                pending_key_exchange: final(self).pending_key_exchange,
                ..*old(self)
            }),
            exchange::pending_view(final(self).pending_key_exchange@) == exchange::still_pending(
                exchange::pending_view(old(self).pending_key_exchange@),
            ),
            exchange::stored_arrivals_view(r@) == exchange::readable(
                *old(self),
                exchange::pending_view(old(self).pending_key_exchange@),
            ),
    {
        let ghost given = self.pending_key_exchange@;
        let ghost all = exchange::pending_view(given);
        let mut rest: Vec<PendingList> = Vec::new();
        core::mem::swap(&mut self.pending_key_exchange, &mut rest);
        let n: usize = rest.len();
        let mut r: Vec<exchange::StoredArrival> = Vec::new();
        let mut k: usize = 0;
        proof {
            assert(given.skip(0) == given);
            assert(all.take(0) == Seq::<(Uuid, Seq<(Did, (Seq<u8>, bool))>)>::empty());
        }
        while k < n
            invariant
                n == given.len(),
                k <= n,
                all == exchange::pending_view(given),
                rest@ == given.skip(k as int),
                *self == (ConversationInner {
                    pending_key_exchange: self.pending_key_exchange,
                    ..*old(self)
                }),
                exchange::pending_view(self.pending_key_exchange@) == exchange::still_pending(
                    all.take(k as int),
                ),
                exchange::stored_arrivals_view(r@) == exchange::readable(
                    *old(self),
                    all.take(k as int),
                ),
            decreases n - k,
        {
            let ghost held = self.pending_key_exchange@;
            let ghost before = r@;
            assert(rest@[0] == given[k as int]);
            let entry = rest.remove(0);
            let id: Uuid = entry.id;
            proof {
                assert(rest@ == given.skip(k + 1));
                assert(all.take(k + 1).drop_last() == all.take(k as int));
                assert(all.take(k + 1).last() == all[k as int]);
            }
            let (mut come, kept) = split_list(entry.list, id);
            if kept.len() > 0 {
                self.pending_key_exchange.push(PendingList { id, list: kept });
                assert(exchange::pending_view(self.pending_key_exchange@)
                    == exchange::pending_view(held).push((id, exchange::payloads_view(kept@))));
            }
            if self.get_keystore(id).is_ok() {
                let ghost added = come@;
                r.append(&mut come);
                assert(exchange::stored_arrivals_view(r@) == exchange::stored_arrivals_view(before)
                    + exchange::stored_arrivals_view(added));
            }
            k = k + 1;
        }
        assert(all.take(n as int) == all);
        r
    }

    /// Lets a payload for one identity wait, where it could not be delivered.
    pub fn queue_undelivered(
        &mut self,
        id: Uuid,
        did: Did,
        delivered: bool,
        topic: String,
        data: Vec<u8>,
    )
        requires
            old(self).queue.well_formed(),
        ensures
            *final(self) == (ConversationInner { queue: final(self).queue, ..*old(self) }),
            final(self).queue.well_formed(),
            if delivered {
                final(self).queue == old(self).queue
            } else {
                final(self).queue@ == queue::queued(
                    old(self).queue@,
                    did,
                    queue::QueueItemView {
                        id,
                        m_id: None,
                        peer: did,
                        topic: topic@,
                        data: data@,
                        sent: false,
                    },
                )
            },
    {
        if !delivered {
            self.queue.queue_event(did, QueueItem::direct(id, None, did, topic, data));
        }
    }

    /// Lets what is published wait for each other member who does not listen, where `queue` is
    /// set. Returns whether another member listens.
    pub fn publish(
        &mut self,
        id: Uuid,
        message_id: Option<Uuid>,
        listening: &Vec<Did>,
        topic: &String,
        data: &Vec<u8>,
        queue: bool,
    ) -> (r: Result<bool, Error>)
        requires
            old(self).queue.well_formed(),
        ensures
            final(self).queue.well_formed(),
            if !store::has_conversation(old(self).conversations@, id) {
                r == Err::<bool, Error>(Error::InvalidConversation) && *final(self) == *old(self)
            } else {
                let members = exchange::document_of(*old(self), id).spec_recipients();
                &&& *final(self) == (ConversationInner { queue: final(self).queue, ..*old(self) })
                &&& r == Ok::<bool, Error>(
                    queue::someone_listens(members, old(self).own, listening@),
                )
                &&& final(self).queue@ == (if queue {
                    queue::published(
                        old(self).queue@,
                        members,
                        old(self).own,
                        listening@,
                        queue::QueueItemView {
                            id,
                            m_id: message_id,
                            peer: old(self).own,
                            topic: topic@,
                            data: data@,
                            sent: false,
                        },
                    )
                } else {
                    old(self).queue@
                })
            },
    {
        let recipients = match self.get(id) {
            Err(e) => return Err(e),
            Ok(doc) => doc.recipients(),
        };
        Ok(
            self.queue.publish(
                &recipients,
                self.own,
                listening,
                id,
                message_id,
                topic,
                data,
                queue,
            ),
        )
    }

    /// Notes deliveries and takes out what is sent. Returns whether the queue has to be stored
    /// again.
    pub fn process_queue(&mut self, deliveries: &Vec<Delivery>) -> (r: bool)
        requires
            old(self).queue.well_formed(),
        ensures
            *final(self) == (ConversationInner { queue: final(self).queue, ..*old(self) }),
            final(self).queue.well_formed(),
            r == queue::any_delivers(old(self).queue@, deliveries@),
            final(self).queue@ == queue::swept(
                queue::all_delivered(old(self).queue@, deliveries@),
            ),
    {
        self.queue.process_queue(deliveries)
    }

    /// What is known of the delivery of a message: one that waits for another member is not sent.
    /// Nothing is known of one in a group.
    pub fn message_status(&self, id: Uuid, message_id: Uuid) -> (r: Result<MessageStatus, Error>)
        requires
            self.queue.well_formed(),
        ensures
            r == message_status_of(*self, id, message_id),
    {
        let others = match self.get(id) {
            Err(e) => return Err(e),
            Ok(doc) => {
                if doc.conversation_type == ConversationType::Group {
                    return Err(Error::Unimplemented);
                }
                if !doc.contains(message_id) {
                    return Err(Error::MessageNotFound);
                }
                without_did(&doc.recipients(), self.own)
            },
        };
        let ghost doc = exchange::document_of(*self, id);
        let mut i: usize = 0;
        while i < others.len()
            invariant
                self.queue.well_formed(),
                doc == exchange::document_of(*self, id),
                store::has_conversation(self.conversations@, id),
                doc.conversation_type is Direct,
                document::has_message(doc.messages@, message_id),
                others@ == ids::without(doc.spec_recipients(), self.own),
                i <= others@.len(),
                forall|j: int|
                    0 <= j < i ==> !exchange::waits_for(
                        queue::waiting_for(self.queue@, #[trigger] others@[j]),
                        id,
                        message_id,
                    ),
            decreases others@.len() - i,
        {
            if self.queue.holds(others[i], id, message_id) {
                assert(exchange::waits_for(
                    queue::waiting_for(self.queue@, others@[i as int]),
                    id,
                    message_id,
                ));
                return Ok(MessageStatus::NotSent);
            }
            i = i + 1;
        }
        Ok(MessageStatus::Sent)
    }

    /// A sign of activity of the own identity, to be sent to the other members, or the sign that
    /// it ended. It needs the own key of a group.
    pub fn activity(&self, id: Uuid, event: MessageEvent, cancelled: bool) -> (r: Result<
        Outgoing,
        Error,
    >)
        ensures
            r == (match exchange::key_refusal(*self, id, None) {
                Some(e) => Err::<Outgoing, Error>(e),
                None => Ok(Outgoing::Event { member: self.own, event, cancelled }),
            }),
    {
        match self.conversation_key(id, None) {
            Ok(_) => Ok(Outgoing::Event { member: self.own, event, cancelled }),
            Err(e) => Err(e),
        }
    }
}

} // verus!
