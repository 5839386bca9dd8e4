//! What holds of what waits for members who are away, in the own queue and in mailboxes.
use vstd::prelude::*;
use crate::encoding;
use crate::ids::{Cid, Did, PeerId, Timestamp, Uuid};
use crate::ordered;
use super::document::{self, ConversationDocument};
use super::incoming::Keeper;
use super::laws::{distinct_incoming, mailbox_order_is_settled};
use super::mailbox::{self, MailboxMessage};
use super::message::Message;
use super::queue::{self, Delivery, QueueItemView, QueueView};
use super::received::lemma_place;
use super::MessageEventKind;

verus! {

/// An item that is queued comes last among what waits for its receiver, and nothing else changes.
pub proof fn queued_item_comes_last(before: QueueView, did: Did, item: QueueItemView, other: Did)
    requires
        ordered::distinct_keys(before),
    ensures
        queue::waiting_for(queue::queued(before, did, item), did) == queue::waiting_for(
            before,
            did,
        ).push(item),
        other != did ==> queue::waiting_for(queue::queued(before, did, item), other)
            == queue::waiting_for(before, other),
        ordered::distinct_keys(queue::queued(before, did, item)),
{
    let more = queue::waiting_for(before, did).push(item);
    ordered::insertion_is_found(before, did, more);
    if other != did {
        ordered::insertion_leaves_others(before, did, more, other);
    }
}

/// What is published waits once for each other member who does not listen, behind what waits for it
/// already, and for nobody else.
pub proof fn published_item_waits_once(
    before: QueueView,
    recipients: Seq<Did>,
    own: Did,
    listening: Seq<Did>,
    item: QueueItemView,
    did: Did,
)
    requires
        ordered::distinct_keys(before),
        recipients.no_duplicates(),
    ensures
        queue::waiting_for(queue::published(before, recipients, own, listening, item), did) == (
        if recipients.contains(did) && did != own && !listening.contains(did) {
            queue::waiting_for(before, did).push(QueueItemView { peer: did, ..item })
        } else {
            queue::waiting_for(before, did)
        }),
        ordered::distinct_keys(queue::published(before, recipients, own, listening, item)),
    decreases recipients.len(),
{
    if recipients.len() > 0 {
        let head = recipients.drop_last();
        let last = recipients.last();
        assert(recipients[recipients.len() - 1] == last);
        published_item_waits_once(before, head, own, listening, item, did);
        let rest = queue::published(before, head, own, listening, item);
        assert(recipients.contains(did) <==> head.contains(did) || did == last) by {
            if head.contains(did) {
                let i = choose|i: int| 0 <= i < head.len() && head[i] == did;
                assert(recipients[i] == did);
            }
            if recipients.contains(did) && did != last {
                let i = choose|i: int| 0 <= i < recipients.len() && recipients[i] == did;
                assert(head[i] == did);
            }
        }
        if did == last && head.contains(did) {
            let i = choose|i: int| 0 <= i < head.len() && head[i] == did;
            assert(recipients[i] == recipients[recipients.len() - 1]);
        }
        if last != own && !listening.contains(last) {
            queued_item_comes_last(rest, last, QueueItemView { peer: last, ..item }, did);
        }
    }
}

/// A delivery marks the item that it is of as sent, once, and changes nothing else.
pub proof fn delivery_marks_its_item(
    before: QueueView,
    delivery: Delivery,
    other: Did,
    j: int,
)
    requires
        ordered::distinct_keys(before),
        0 <= delivery.index < queue::waiting_for(before, delivery.did).len(),
    ensures
        ({
            let items = queue::waiting_for(before, delivery.did);
            let after = queue::delivered(before, delivery);
            let marked = queue::waiting_for(after, delivery.did);
            let i = delivery.index as int;
            &&& queue::delivers(before, delivery) <==> !items[i].sent
            &&& marked.len() == items.len()
            &&& marked[i].sent
            &&& marked[i] == (QueueItemView { sent: true, ..items[i] })
            &&& 0 <= j < items.len() && j != i ==> marked[j] == items[j]
            &&& other != delivery.did ==> queue::waiting_for(after, other) == queue::waiting_for(
                before,
                other,
            )
        }),
{
    let items = queue::waiting_for(before, delivery.did);
    let i = delivery.index as int;
    let marked = items.update(i, QueueItemView { sent: true, ..items[i] });
    ordered::insertion_is_found(before, delivery.did, marked);
    if other != delivery.did {
        ordered::insertion_leaves_others(before, delivery.did, marked, other);
    }
}

/// A delivery of what does not wait changes nothing.
pub proof fn stray_delivery_changes_nothing(before: QueueView, delivery: Delivery)
    requires
        delivery.index >= queue::waiting_for(before, delivery.did).len(),
    ensures
        !queue::delivers(before, delivery),
        queue::delivered(before, delivery) == before,
{
}

/// Of two lists of items, one behind the other, what is unsent is what is unsent of each; an item is
/// unsent where it is not marked as sent.
pub proof fn unsent_goes_by_parts(
    a: Seq<QueueItemView>,
    b: Seq<QueueItemView>,
    item: QueueItemView,
)
    ensures
        queue::unsent(a + b) == queue::unsent(a) + queue::unsent(b),
        queue::unsent(seq![item]) == (if item.sent {
            Seq::empty()
        } else {
            seq![item]
        }),
    decreases b.len(),
{
    reveal(Seq::filter);
    let none = Seq::<QueueItemView>::empty();
    assert(seq![item].drop_last() == none);
    assert(queue::unsent(none) == none);
    assert(queue::unsent(seq![item]) == (if item.sent {
        none
    } else {
        none.push(item)
    }));
    if b.len() == 0 {
        assert(a + b == a);
        assert(b == none);
        assert(queue::unsent(a) + queue::unsent(b) == queue::unsent(a));
    } else {
        unsent_goes_by_parts(a, b.drop_last(), item);
        assert((a + b).drop_last() == a + b.drop_last());
        assert((a + b).last() == b.last());
        assert(queue::unsent(a + b) == queue::unsent(a) + queue::unsent(b));
    }
}

/// After a sweep exactly what is unsent still waits for every receiver.
pub proof fn sweep_leaves_what_is_unsent(before: QueueView, did: Did)
    requires
        ordered::distinct_keys(before),
    ensures
        queue::waiting_for(queue::swept(before), did) == queue::unsent(
            queue::waiting_for(before, did),
        ),
    decreases before.len(),
{
    reveal(Seq::filter);
    let none = Seq::<QueueItemView>::empty();
    assert(queue::unsent(none) == none);
    if before.len() > 0 {
        let head = before.drop_last();
        let (last, items) = before.last();
        assert forall|a: int, b: int| 0 <= a < b < head.len() implies (#[trigger] head[a]).0 != (
        #[trigger] head[b]).0 by {
            assert(before[a].0 != before[b].0);
        }
        sweep_leaves_what_is_unsent(head, did);
        lemma_swept_from(head);
        let rest = queue::swept(head);
        let after = queue::swept(before);
        assert(before[before.len() - 1] == (last, items));
        assert forall|i: int| 0 <= i < rest.len() implies (#[trigger] rest[i]).0 != last by {
            let k = choose|k: int| 0 <= k < head.len() && (#[trigger] head[k]).0 == rest[i].0;
            assert(before[k].0 != before[before.len() - 1].0);
        }
        if did == last {
            ordered::lemma_key_index(before, did, before.len() - 1);
            assert forall|k: int| 0 <= k < head.len() implies (#[trigger] head[k]).0 != did by {
                assert(before[k].0 != before[before.len() - 1].0);
            }
            assert(!ordered::has_key(head, did));
            if queue::unsent(items).len() > 0 {
                lemma_swept_distinct(before);
                assert(after[after.len() - 1] == (last, queue::unsent(items)));
                ordered::lemma_key_index(after, did, after.len() - 1);
            } else {
                assert(queue::unsent(items) == none);
            }
        } else {
            lemma_same_lookup(before, head, did);
            if queue::unsent(items).len() > 0 {
                lemma_swept_distinct(before);
                assert(after.drop_last() == rest);
                lemma_same_lookup(after, rest, did);
            }
        }
    }
}

proof fn lemma_same_lookup(all: QueueView, head: QueueView, did: Did)
    requires
        all.len() > 0,
        head == all.drop_last(),
        ordered::distinct_keys(all),
        all.last().0 != did,
    ensures
        ordered::lookup(all, did) == ordered::lookup(head, did),
{
    assert forall|a: int, b: int| 0 <= a < b < head.len() implies (#[trigger] head[a]).0 != (
    #[trigger] head[b]).0 by {
        assert(all[a].0 != all[b].0);
    }
    if ordered::has_key(head, did) {
        let k = choose|k: int| 0 <= k < head.len() && #[trigger] head[k].0 == did;
        assert(all[k].0 == did);
        ordered::lemma_key_index(head, did, k);
        ordered::lemma_key_index(all, did, k);
    } else if ordered::has_key(all, did) {
        let k = choose|k: int| 0 <= k < all.len() && #[trigger] all[k].0 == did;
        assert(all[all.len() - 1] == all.last());
        assert(head[k].0 == did);
    }
}

proof fn lemma_swept_from(before: QueueView)
    ensures
        forall|i: int|
            0 <= i < queue::swept(before).len() ==> exists|k: int|
                0 <= k < before.len() && (#[trigger] before[k]).0 == (#[trigger] queue::swept(
                    before,
                )[i]).0,
    decreases before.len(),
{
    if before.len() > 0 {
        let head = before.drop_last();
        lemma_swept_from(head);
        let rest = queue::swept(head);
        let after = queue::swept(before);
        assert forall|i: int| 0 <= i < after.len() implies exists|k: int|
            0 <= k < before.len() && (#[trigger] before[k]).0 == (#[trigger] after[i]).0 by {
            if i < rest.len() {
                assert(after[i] == rest[i]);
                let k = choose|k: int| 0 <= k < head.len() && (#[trigger] head[k]).0 == rest[i].0;
                assert(before[k].0 == after[i].0);
            } else {
                assert(before[before.len() - 1].0 == after[i].0);
            }
        }
    }
}

proof fn lemma_swept_distinct(before: QueueView)
    requires
        ordered::distinct_keys(before),
    ensures
        ordered::distinct_keys(queue::swept(before)),
    decreases before.len(),
{
    if before.len() > 0 {
        let head = before.drop_last();
        assert forall|a: int, b: int| 0 <= a < b < head.len() implies (#[trigger] head[a]).0 != (
        #[trigger] head[b]).0 by {
            assert(before[a].0 != before[b].0);
        }
        lemma_swept_distinct(head);
        lemma_swept_from(head);
        let rest = queue::swept(head);
        let after = queue::swept(before);
        assert forall|a: int, b: int| 0 <= a < b < after.len() implies (#[trigger] after[a]).0 != (
        #[trigger] after[b]).0 by {
            if b < rest.len() {
                assert(rest[a].0 != rest[b].0);
            } else {
                assert(after[a] == rest[a]);
                let k = choose|k: int| 0 <= k < head.len() && (#[trigger] head[k]).0 == rest[a].0;
                assert(before[k].0 != before[before.len() - 1].0);
            }
        }
    }
}

/// The messages of a mailbox are those whose texts are identifiers; of two texts of one identifier the
/// later counts.
pub proof fn mailbox_is_read_by_identifiers(list: Seq<(String, Cid)>, id: Uuid, i: int)
    ensures
        mailbox::parsed_mailbox(list).contains_key(id) <==> exists|k: int|
            0 <= k < list.len() && encoding::parsed_uuid((#[trigger] list[k]).0@) == Some(id),
        0 <= i < list.len() && encoding::parsed_uuid(list[i].0@) == Some(id) && (forall|k: int|
            i < k < list.len() ==> encoding::parsed_uuid((#[trigger] list[k]).0@) != Some(id))
            ==> mailbox::parsed_mailbox(list)[id] == list[i].1,
    decreases list.len(),
{
    if list.len() > 0 {
        let head = list.drop_last();
        let last = list.len() - 1;
        mailbox_is_read_by_identifiers(head, id, i);
        assert(list[last] == list.last());
        if exists|k: int|
            0 <= k < head.len() && encoding::parsed_uuid((#[trigger] head[k]).0@) == Some(id) {
            let k = choose|k: int|
                0 <= k < head.len() && encoding::parsed_uuid((#[trigger] head[k]).0@) == Some(id);
            assert(list[k] == head[k]);
        }
        if exists|k: int|
            0 <= k < list.len() && encoding::parsed_uuid((#[trigger] list[k]).0@) == Some(id) {
            let k = choose|k: int|
                0 <= k < list.len() && encoding::parsed_uuid((#[trigger] list[k]).0@) == Some(id);
            if k < last {
                assert(head[k] == list[k]);
            }
        }
        if 0 <= i < last && encoding::parsed_uuid(list[i].0@) == Some(id) && forall|k: int|
            i < k < list.len() ==> encoding::parsed_uuid((#[trigger] list[k]).0@) != Some(id) {
            assert(encoding::parsed_uuid(list[last].0@) != Some(id));
            assert(head[i] == list[i]);
            assert forall|k: int| i < k < head.len() implies encoding::parsed_uuid(
                (#[trigger] head[k]).0@,
            ) != Some(id) by {
                assert(list[k] == head[k]);
            }
        }
    }
}

/// The mailboxes are told of a message where it was fetched for the store, or its signature is good.
pub proof fn arrivals_are_told(messages: Seq<MailboxMessage>, keeper: Keeper, id: Uuid)
    ensures
        mailbox::arrived(messages, keeper).contains(id) <==> exists|k: int|
            0 <= k < messages.len() && (#[trigger] messages[k]).message.id == id && (
            messages[k].verified || keeper is Store),
    decreases messages.len(),
{
    if messages.len() > 0 {
        let head = messages.drop_last();
        let last = messages.last();
        arrivals_are_told(head, keeper, id);
        let rest = mailbox::arrived(head, keeper);
        let all = mailbox::arrived(messages, keeper);
        assert(messages[messages.len() - 1] == last);
        if rest.contains(id) {
            let i = choose|i: int| 0 <= i < rest.len() && rest[i] == id;
            assert(all[i] == id);
            let k = choose|k: int|
                0 <= k < head.len() && (#[trigger] head[k]).message.id == id && (head[k].verified
                    || keeper is Store);
            assert(messages[k] == head[k]);
        }
        if last.verified || keeper is Store {
            assert(all[rest.len() as int] == last.message.id);
        }
        if all.contains(id) && !rest.contains(id) {
            let i = choose|i: int| 0 <= i < all.len() && all[i] == id;
            if i < rest.len() {
                assert(rest[i] == id);
            }
        }
        if exists|k: int|
            0 <= k < messages.len() && (#[trigger] messages[k]).message.id == id && (
            messages[k].verified || keeper is Store) {
            let k = choose|k: int|
                0 <= k < messages.len() && (#[trigger] messages[k]).message.id == id && (
                messages[k].verified || keeper is Store);
            if k < head.len() {
                assert(head[k] == messages[k]);
            }
        }
    }
}

/// The nodes with mailboxes are those that the addresses name, in the order of the addresses.
pub proof fn named_peers_go_by_parts(
    a: Seq<Option<PeerId>>,
    b: Seq<Option<PeerId>>,
    address: Option<PeerId>,
)
    ensures
        mailbox::named_peers(a + b) == mailbox::named_peers(a) + mailbox::named_peers(b),
        mailbox::named_peers(seq![address]) == (match address {
            Some(peer_id) => seq![peer_id],
            None => Seq::empty(),
        }),
    decreases b.len(),
{
    let none = Seq::<Option<PeerId>>::empty();
    assert(seq![address].drop_last() == none);
    assert(mailbox::named_peers(none) == Seq::<PeerId>::empty());
    assert(seq![address].last() == address);
    assert(mailbox::named_peers(seq![address]) == (match address {
        Some(peer_id) => Seq::<PeerId>::empty().push(peer_id),
        None => Seq::<PeerId>::empty(),
    }));
    if b.len() == 0 {
        assert(a + b == a);
        assert(mailbox::named_peers(a) + mailbox::named_peers(b) == mailbox::named_peers(a));
    } else {
        named_peers_go_by_parts(a, b.drop_last(), address);
        assert((a + b).drop_last() == a + b.drop_last());
        assert((a + b).last() == b.last());
        assert(mailbox::named_peers(a + b) == mailbox::named_peers(a) + mailbox::named_peers(b));
    }
}

/// A version of a message is later where it was edited, after the other or where the other was not.
pub proof fn later_version_was_edited_later(a: Option<Timestamp>, b: Option<Timestamp>)
    ensures
        !mailbox::is_edited(a, a),
        !(mailbox::is_edited(a, b) && mailbox::is_edited(b, a)),
        a != b ==> mailbox::is_edited(a, b) || mailbox::is_edited(b, a),
        !mailbox::is_edited(None, a),
        a is Some && b is Some ==> (mailbox::is_edited(a, b) <==> a->Some_0 > b->Some_0),
{
}

/// What the messages are after a merge, as far as one identifier goes that was not among those merged.
proof fn lemma_untouched(
    existing: Seq<Message>,
    incoming: Seq<MailboxMessage>,
    id: Uuid,
)
    requires
        document::distinct_messages(existing),
        forall|k: int|
            0 <= k < incoming.len() && (#[trigger] incoming[k]).verified ==> incoming[k].message.id
                != id,
    ensures
        ({
            let after = mailbox::with_mailbox(existing, incoming);
            &&& after.len() >= existing.len()
            &&& document::distinct_messages(after)
            &&& forall|i: int|
                0 <= i < existing.len() && (#[trigger] existing[i]).id == id ==> after[i]
                    == existing[i]
            &&& forall|i: int|
                0 <= i < existing.len() ==> (#[trigger] after[i]).id == existing[i].id
            &&& forall|i: int|
                existing.len() <= i < after.len() ==> (#[trigger] after[i]).id != id
        }),
    decreases incoming.len(),
{
    if incoming.len() > 0 {
        let head = incoming.drop_last();
        let x = incoming.last();
        assert(incoming[incoming.len() - 1] == x);
        assert forall|k: int| 0 <= k < head.len() && (#[trigger] head[k]).verified implies
        head[k].message.id != id by {
            assert(incoming[k] == head[k]);
        }
        lemma_untouched(existing, head, id);
        let rest = mailbox::with_mailbox(existing, head);
        let after = mailbox::with_mailbox(existing, incoming);
        if x.verified {
            let known = x.message.id;
            if document::has_message(rest, known) {
                document::lemma_has_message_index(rest, known);
                let p = document::message_index(rest, known);
                assert(rest[p].id == known);
                assert(after == rest.update(p, x.message));
                assert forall|a: int, b: int| 0 <= a < b < after.len() implies (
                #[trigger] after[a]).id != (#[trigger] after[b]).id by {
                    assert(rest[a].id != rest[b].id);
                }
                assert forall|i: int| 0 <= i < existing.len() && (
                #[trigger] existing[i]).id == id implies after[i] == existing[i] by {
                    assert(rest[i].id == existing[i].id);
                    assert(i != p);
                }
                assert forall|i: int| 0 <= i < existing.len() implies (#[trigger] after[i]).id
                    == existing[i].id by {
                    assert(rest[i].id == existing[i].id);
                }
                assert forall|i: int| existing.len() <= i < after.len() implies (
                #[trigger] after[i]).id != id by {
                    assert(rest[i].id != id);
                }
            } else {
                assert(after == rest.push(x.message));
                assert forall|a: int, b: int| 0 <= a < b < after.len() implies (
                #[trigger] after[a]).id != (#[trigger] after[b]).id by {
                    if b < rest.len() {
                        assert(rest[a].id != rest[b].id);
                    } else {
                        assert(rest[a].id != known);
                    }
                }
                assert forall|i: int| 0 <= i < existing.len() && (
                #[trigger] existing[i]).id == id implies after[i] == existing[i] by {
                    assert(rest[i] == existing[i]);
                }
                assert forall|i: int| 0 <= i < existing.len() implies (#[trigger] after[i]).id
                    == existing[i].id by {
                    assert(rest[i].id == existing[i].id);
                }
                assert forall|i: int| existing.len() <= i < after.len() implies (
                #[trigger] after[i]).id != id by {
                    if i < rest.len() {
                        assert(rest[i].id != id);
                    }
                }
            }
        }
    }
}

/// A merge leaves every message that no good message of the mailbox has the identifier of, at its
/// place; a message whose signature is bad changes nothing.
pub proof fn merge_leaves_other_messages(
    existing: Seq<Message>,
    incoming: Seq<MailboxMessage>,
    i: int,
)
    requires
        document::distinct_messages(existing),
        0 <= i < existing.len(),
        forall|k: int|
            0 <= k < incoming.len() && (#[trigger] incoming[k]).verified ==> incoming[k].message.id
                != existing[i].id,
    ensures
        mailbox::with_mailbox(existing, incoming)[i] == existing[i],
        mailbox::with_mailbox(existing, incoming).len() >= existing.len(),
{
    lemma_untouched(existing, incoming, existing[i].id);
}

/// Of a merge the subscribers are told that a message was received where its signature is good and it
/// was not there, and that it was edited where it was there in an earlier version.
pub proof fn merge_is_told(
    conversation_id: Uuid,
    existing: Seq<Message>,
    incoming: Seq<MailboxMessage>,
    message_id: Uuid,
    k: int,
)
    requires
        document::distinct_messages(existing),
        distinct_incoming(incoming),
        0 <= k < incoming.len(),
        incoming[k].message.id == message_id,
    ensures
        ({
            let told = mailbox::mailbox_events(conversation_id, existing, incoming);
            &&& told.contains(MessageEventKind::MessageReceived { conversation_id, message_id })
                <==> incoming[k].verified && forall|j: int|
                0 <= j < existing.len() ==> (#[trigger] existing[j]).id != message_id
            &&& told.contains(MessageEventKind::MessageEdited { conversation_id, message_id })
                <==> incoming[k].verified && exists|j: int|
                0 <= j < existing.len() && (#[trigger] existing[j]).id == message_id
                    && mailbox::is_edited(incoming[k].message.modified, existing[j].modified)
        }),
    decreases incoming.len(),
{
    let head = incoming.drop_last();
    let x = incoming.last();
    assert(incoming[incoming.len() - 1] == x);
    assert forall|a: int, b: int| 0 <= a < b < head.len() implies (
    #[trigger] head[a]).message.id != (#[trigger] head[b]).message.id by {
        assert(incoming[a].message.id != incoming[b].message.id);
    }
    let known = mailbox::with_mailbox(existing, head);
    let rest = mailbox::mailbox_events(conversation_id, existing, head);
    let told = mailbox::mailbox_events(conversation_id, existing, incoming);
    let received = MessageEventKind::MessageReceived { conversation_id, message_id };
    let edited = MessageEventKind::MessageEdited { conversation_id, message_id };
    if k < head.len() {
        assert(head[k] == incoming[k]);
        merge_is_told(conversation_id, existing, head, message_id, k);
        assert(x.message.id != message_id);
        lemma_pushed(rest, told, received);
        lemma_pushed(rest, told, edited);
    } else {
        assert forall|j: int| 0 <= j < head.len() && (#[trigger] head[j]).verified implies
        head[j].message.id != message_id by {
            assert(incoming[j].message.id != incoming[k].message.id);
        }
        lemma_untouched(existing, head, message_id);
        lemma_untold(conversation_id, existing, head, message_id);
        assert(document::has_message(known, message_id) <==> document::has_message(
            existing,
            message_id,
        )) by {
            if document::has_message(existing, message_id) {
                let j = choose|j: int|
                    0 <= j < existing.len() && (#[trigger] existing[j]).id == message_id;
                assert(known[j].id == message_id);
            }
            if document::has_message(known, message_id) {
                let j = choose|j: int|
                    0 <= j < known.len() && (#[trigger] known[j]).id == message_id;
                assert(existing[j].id == message_id);
            }
        }
        if document::has_message(existing, message_id) {
            let j = choose|j: int|
                0 <= j < existing.len() && (#[trigger] existing[j]).id == message_id;
            assert(known[j] == existing[j]);
            lemma_place(known, j, message_id);
            assert forall|i: int| 0 <= i < existing.len() && (#[trigger] existing[i]).id
                == message_id implies i == j by {
                if i != j {
                    assert(existing[i].id == existing[j].id);
                }
            }
        }
        lemma_pushed(rest, told, received);
        lemma_pushed(rest, told, edited);
    }
}

proof fn lemma_pushed(
    rest: Seq<MessageEventKind>,
    told: Seq<MessageEventKind>,
    event: MessageEventKind,
)
    requires
        told == rest || told == rest.push(told.last()) && told.len() == rest.len() + 1,
    ensures
        told.contains(event) <==> rest.contains(event) || (told.len() == rest.len() + 1
            && told.last() == event),
{
    if rest.contains(event) {
        let i = choose|i: int| 0 <= i < rest.len() && rest[i] == event;
        assert(told[i] == event);
    }
    if told.len() == rest.len() + 1 && told.last() == event {
        assert(told[told.len() - 1] == event);
    }
    if told.contains(event) && !rest.contains(event) {
        let i = choose|i: int| 0 <= i < told.len() && told[i] == event;
        if i < rest.len() {
            assert(rest[i] == event);
        }
    }
}

proof fn lemma_untold(
    conversation_id: Uuid,
    existing: Seq<Message>,
    incoming: Seq<MailboxMessage>,
    message_id: Uuid,
)
    requires
        forall|k: int|
            0 <= k < incoming.len() && (#[trigger] incoming[k]).verified ==> incoming[k].message.id
                != message_id,
    ensures
        ({
            let told = mailbox::mailbox_events(conversation_id, existing, incoming);
            &&& !told.contains(MessageEventKind::MessageReceived { conversation_id, message_id })
            &&& !told.contains(MessageEventKind::MessageEdited { conversation_id, message_id })
        }),
    decreases incoming.len(),
{
    if incoming.len() > 0 {
        let head = incoming.drop_last();
        assert(incoming[incoming.len() - 1] == incoming.last());
        assert forall|k: int| 0 <= k < head.len() && (#[trigger] head[k]).verified implies
        head[k].message.id != message_id by {
            assert(incoming[k] == head[k]);
        }
        lemma_untold(conversation_id, existing, head, message_id);
        let rest = mailbox::mailbox_events(conversation_id, existing, head);
        let told = mailbox::mailbox_events(conversation_id, existing, incoming);
        lemma_pushed(
            rest,
            told,
            MessageEventKind::MessageReceived { conversation_id, message_id },
        );
        lemma_pushed(rest, told, MessageEventKind::MessageEdited { conversation_id, message_id });
    }
}

/// Deliveries are noted one after the other, and something was delivered where one of them was.
pub proof fn deliveries_go_by_parts(
    queue: QueueView,
    a: Seq<Delivery>,
    b: Seq<Delivery>,
    delivery: Delivery,
)
    ensures
        queue::all_delivered(queue, a + b) == queue::all_delivered(
            queue::all_delivered(queue, a),
            b,
        ),
        queue::any_delivers(queue, a + b) <==> queue::any_delivers(queue, a)
            || queue::any_delivers(queue::all_delivered(queue, a), b),
        queue::all_delivered(queue, Seq::<Delivery>::empty()) == queue,
        !queue::any_delivers(queue, Seq::<Delivery>::empty()),
        queue::all_delivered(queue, seq![delivery]) == queue::delivered(queue, delivery),
        queue::any_delivers(queue, seq![delivery]) <==> queue::delivers(queue, delivery),
    decreases b.len(),
{
    reveal_with_fuel(queue::all_delivered, 2);
    reveal_with_fuel(queue::any_delivers, 2);
    assert(seq![delivery].drop_last() == Seq::<Delivery>::empty());
    if b.len() == 0 {
        assert(a + b == a);
    } else {
        deliveries_go_by_parts(queue, a, b.drop_last(), delivery);
        assert((a + b).drop_last() == a + b.drop_last());
        assert((a + b).last() == b.last());
    }
}

/// Someone listens where one of the others does; that the own identity listens counts for nothing.
pub proof fn listeners_go_by_parts(
    a: Seq<Did>,
    b: Seq<Did>,
    did: Did,
    own: Did,
    listening: Seq<Did>,
)
    ensures
        queue::someone_listens(a + b, own, listening) <==> queue::someone_listens(a, own, listening)
            || queue::someone_listens(b, own, listening),
        queue::someone_listens(seq![did], own, listening) <==> did != own && listening.contains(did),
        !queue::someone_listens(Seq::<Did>::empty(), own, listening),
        !queue::someone_listens(a, own, Seq::<Did>::empty()),
{
    let all = a + b;
    if queue::someone_listens(a, own, listening) {
        let i = choose|i: int|
            0 <= i < a.len() && #[trigger] a[i] != own && listening.contains(a[i]);
        assert(all[i] == a[i]);
    }
    if queue::someone_listens(b, own, listening) {
        let i = choose|i: int|
            0 <= i < b.len() && #[trigger] b[i] != own && listening.contains(b[i]);
        assert(all[a.len() + i] == b[i]);
    }
    if queue::someone_listens(all, own, listening) {
        let i = choose|i: int|
            0 <= i < all.len() && #[trigger] all[i] != own && listening.contains(all[i]);
        if i < a.len() {
            assert(a[i] == all[i]);
        } else {
            assert(b[i - a.len()] == all[i]);
        }
    }
    assert(seq![did][0] == did);
}

/// Of two messages that are put in, the newer comes first whichever came first, and of one moment the
/// first that came.
proof fn lemma_pair_sorted(a: MailboxMessage, b: MailboxMessage)
    ensures
        a.message.date > b.message.date ==> mailbox::is_sorted_of(seq![a, b], seq![b, a]),
        a.message.date >= b.message.date ==> mailbox::is_sorted_of(seq![a, b], seq![a, b]),
{
    let sorted = seq![a, b];
    let swapped = seq![b, a];
    if a.message.date > b.message.date {
        assert forall|date: Timestamp| #[trigger] mailbox::of_date(sorted, date)
            == mailbox::of_date(swapped, date) by {
            lemma_pair_of_date(a, b, date);
            lemma_pair_of_date(b, a, date);
        }
    }
}

proof fn lemma_pair_of_date(a: MailboxMessage, b: MailboxMessage, date: Timestamp)
    ensures
        mailbox::of_date(seq![a, b], date) == (if a.message.date == date {
            seq![a]
        } else {
            Seq::empty()
        }) + (if b.message.date == date {
            seq![b]
        } else {
            Seq::empty()
        }),
{
    reveal_with_fuel(Seq::filter, 3);
    assert(seq![a, b].drop_last() == seq![a]);
    assert(seq![a].drop_last() == Seq::<MailboxMessage>::empty());
}

/// Of two new messages of a mailbox the newer is put in first, whichever came first. The subscribers are
/// told of the newer first where a mailbox is loaded, and of the older first where messages are
/// inserted.
pub proof fn newer_message_comes_in_first(
    before: ConversationDocument,
    after: ConversationDocument,
    events: Seq<MessageEventKind>,
    older: MailboxMessage,
    newer: MailboxMessage,
    newer_came_first: bool,
)
    requires
        older.message.date < newer.message.date,
        older.verified,
        newer.verified,
        older.message.id != newer.message.id,
        forall|j: int|
            0 <= j < before.messages@.len() ==> (#[trigger] before.messages@[j]).id
                != older.message.id && before.messages@[j].id != newer.message.id,
    ensures
        ({
            let incoming = if newer_came_first {
                seq![newer, older]
            } else {
                seq![older, newer]
            };
            let of_newer = MessageEventKind::MessageReceived {
                conversation_id: before.id,
                message_id: newer.message.id,
            };
            let of_older = MessageEventKind::MessageReceived {
                conversation_id: before.id,
                message_id: older.message.id,
            };
            &&& mailbox::load_from_mailbox_post(before, after, events, incoming) ==> {
                &&& after.messages@ == before.messages@ + seq![newer.message, older.message]
                &&& after == (ConversationDocument { messages: after.messages, ..before })
                &&& events == seq![of_newer, of_older]
            }
            &&& mailbox::insert_messages_from_mailbox_post(before, after, events, incoming) ==> {
                &&& after.messages@ == before.messages@ + seq![newer.message, older.message]
                &&& after == (ConversationDocument { messages: after.messages, ..before })
                &&& events == seq![of_older, of_newer]
            }
        }),
{
    let incoming = if newer_came_first {
        seq![newer, older]
    } else {
        seq![older, newer]
    };
    let of_newer = MessageEventKind::MessageReceived {
        conversation_id: before.id,
        message_id: newer.message.id,
    };
    let of_older = MessageEventKind::MessageReceived {
        conversation_id: before.id,
        message_id: older.message.id,
    };
    lemma_pair_sorted(newer, older);
    if mailbox::load_from_mailbox_post(before, after, events, incoming) {
        lemma_pair_merged(before, after, events, older, newer, incoming);
    }
    if mailbox::insert_messages_from_mailbox_post(before, after, events, incoming) {
        lemma_pair_merged(before, after, events.reverse(), older, newer, incoming);
        assert(events == events.reverse().reverse());
        assert(events == seq![of_older, of_newer]);
    }
}

proof fn lemma_pair_merged(
    before: ConversationDocument,
    after: ConversationDocument,
    events: Seq<MessageEventKind>,
    older: MailboxMessage,
    newer: MailboxMessage,
    incoming: Seq<MailboxMessage>,
)
    requires
        mailbox::load_from_mailbox_post(before, after, events, incoming),
        mailbox::is_sorted_of(seq![newer, older], incoming),
        older.verified,
        newer.verified,
        older.message.id != newer.message.id,
        forall|j: int|
            0 <= j < before.messages@.len() ==> (#[trigger] before.messages@[j]).id
                != older.message.id && before.messages@[j].id != newer.message.id,
    ensures
        after.messages@ == before.messages@ + seq![newer.message, older.message],
        after == (ConversationDocument { messages: after.messages, ..before }),
        events == seq![
            MessageEventKind::MessageReceived {
                conversation_id: before.id,
                message_id: newer.message.id,
            },
            MessageEventKind::MessageReceived {
                conversation_id: before.id,
                message_id: older.message.id,
            },
        ],
{
    let sorted = choose|sorted: Seq<MailboxMessage>|
        mailbox::is_sorted_of(sorted, incoming) && #[trigger] mailbox::merge_post(
            before,
            after,
            events,
            sorted,
        );
    mailbox_order_is_settled(sorted, seq![newer, older], incoming);
    reveal_with_fuel(mailbox::with_mailbox, 3);
    reveal_with_fuel(mailbox::mailbox_events, 3);
    let one = seq![newer];
    assert(sorted.drop_last() == one);
    assert(one.drop_last() == Seq::<MailboxMessage>::empty());
    let first = before.messages@.push(newer.message);
    assert(!document::has_message(before.messages@, newer.message.id));
    assert(mailbox::with_mailbox(before.messages@, one) == first);
    assert(!document::has_message(first, older.message.id));
    assert(after.messages@ == first.push(older.message));
}

/// A message of a mailbox whose signature is good is in the conversation once the mailbox was loaded or
/// its messages were inserted; a message whose identifier is none of theirs is what it was.
pub proof fn mailbox_comes_in(
    before: ConversationDocument,
    after: ConversationDocument,
    events: Seq<MessageEventKind>,
    incoming: Seq<MailboxMessage>,
)
    ensures
        mailbox::load_from_mailbox_post(before, after, events, incoming)
            <==> mailbox::insert_messages_from_mailbox_post(
            before,
            after,
            events.reverse(),
            incoming,
        ),
        mailbox::load_from_mailbox_post(before, after, events, incoming) ==> after == (
        ConversationDocument { messages: after.messages, ..before }),
{
    assert(events.reverse().reverse() == events);
}

} // verus!
