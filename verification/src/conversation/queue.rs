//! What could not be delivered yet.
use vstd::prelude::*;
use crate::ids::{contains_did, Did, Uuid};
use crate::ordered;
use super::keys::copy_bytes;

verus! {

/// A payload that waits for its receiver.
pub struct QueueItem {
    /// The conversation that it belongs to.
    pub id: Uuid,
    /// The message that it carries, where it carries a new one.
    pub m_id: Option<Uuid>,
    pub peer: Did,
    pub topic: String,
    pub data: Vec<u8>,
    pub sent: bool,
}

/// What an item holds.
#[verifier::ext_equal]
pub struct QueueItemView {
    pub id: Uuid,
    pub m_id: Option<Uuid>,
    pub peer: Did,
    pub topic: Seq<char>,
    pub data: Seq<u8>,
    pub sent: bool,
}

impl View for QueueItem {
    type V = QueueItemView;

    open spec fn view(&self) -> QueueItemView {
        QueueItemView {
            id: self.id,
            m_id: self.m_id,
            peer: self.peer,
            topic: self.topic@,
            data: self.data@,
            sent: self.sent,
        }
    }
}

impl QueueItem {
    /// An item that was not sent yet.
    pub fn direct(id: Uuid, m_id: Option<Uuid>, peer: Did, topic: String, data: Vec<u8>) -> (r:
        QueueItem)
        ensures
            r == (QueueItem { id, m_id, peer, topic, data, sent: false }),
    {
        QueueItem { id, m_id, peer, topic, data, sent: false }
    }
}

/// The items that wait for one receiver.
pub struct QueueEntry {
    pub did: Did,
    pub items: Vec<QueueItem>,
}

/// The items that wait, by receiver.
pub struct Queue {
    pub entries: Vec<QueueEntry>,
}

/// The receivers, each with what waits for it, in order.
pub type QueueView = Seq<(Did, Seq<QueueItemView>)>;

pub open spec fn items_view(items: Seq<QueueItem>) -> Seq<QueueItemView> {
    items.map_values(|item: QueueItem| item@)
}

pub open spec fn entries_view(entries: Seq<QueueEntry>) -> QueueView {
    entries.map_values(|entry: QueueEntry| (entry.did, items_view(entry.items@)))
}

impl View for Queue {
    type V = QueueView;

    open spec fn view(&self) -> QueueView {
        entries_view(self.entries@)
    }
}

/// What waits for one receiver.
pub open spec fn waiting_for(queue: QueueView, did: Did) -> Seq<QueueItemView> {
    match ordered::lookup(queue, did) {
        Some(items) => items,
        None => Seq::empty(),
    }
}

/// The queue with one more item for a receiver.
pub open spec fn queued(queue: QueueView, did: Did, item: QueueItemView) -> QueueView {
    ordered::inserted(queue, did, waiting_for(queue, did).push(item))
}

/// The queue after something was published to a topic: for each other member who does not listen
/// there, an item waits.
pub open spec fn published(
    queue: QueueView,
    recipients: Seq<Did>,
    own: Did,
    listening: Seq<Did>,
    item: QueueItemView,
) -> QueueView
    decreases recipients.len(),
{
    if recipients.len() == 0 {
        queue
    } else {
        let rest = published(queue, recipients.drop_last(), own, listening, item);
        let did = recipients.last();
        if did == own || listening.contains(did) {
            rest
        } else {
            queued(rest, did, QueueItemView { peer: did, ..item })
        }
    }
}

/// Whether another member listens.
pub open spec fn someone_listens(recipients: Seq<Did>, own: Did, listening: Seq<Did>) -> bool {
    exists|i: int|
        0 <= i < recipients.len() && #[trigger] recipients[i] != own && listening.contains(
            recipients[i],
        )
}

/// The items that are not sent.
pub open spec fn unsent(items: Seq<QueueItemView>) -> Seq<QueueItemView> {
    items.filter(|item: QueueItemView| !item.sent)
}

/// The queue without what is sent, and without receivers for whom nothing waits.
pub open spec fn swept(queue: QueueView) -> QueueView
    decreases queue.len(),
{
    if queue.len() == 0 {
        queue
    } else {
        let rest = swept(queue.drop_last());
        let (did, items) = queue.last();
        if unsent(items).len() == 0 {
            rest
        } else {
            rest.push((did, unsent(items)))
        }
    }
}

/// One item, by its receiver and its place among what waits for it.
#[derive(Clone, Copy, PartialEq, Eq, Structural, Debug)]
pub struct Delivery {
    pub did: Did,
    pub index: usize,
}

/// Whether a delivery is of an item that is there and not sent.
pub open spec fn delivers(queue: QueueView, delivery: Delivery) -> bool {
    let items = waiting_for(queue, delivery.did);
    delivery.index < items.len() && !items[delivery.index as int].sent
}

/// The queue after a delivery.
pub open spec fn delivered(queue: QueueView, delivery: Delivery) -> QueueView {
    if delivers(queue, delivery) {
        let items = waiting_for(queue, delivery.did);
        let item = items[delivery.index as int];
        ordered::inserted(
            queue,
            delivery.did,
            items.update(delivery.index as int, QueueItemView { sent: true, ..item }),
        )
    } else {
        queue
    }
}

/// The queue after deliveries, one after the other.
pub open spec fn all_delivered(queue: QueueView, deliveries: Seq<Delivery>) -> QueueView
    decreases deliveries.len(),
{
    if deliveries.len() == 0 {
        queue
    } else {
        delivered(all_delivered(queue, deliveries.drop_last()), deliveries.last())
    }
}

/// Whether one of the deliveries is of an item that is there and not sent.
pub open spec fn any_delivers(queue: QueueView, deliveries: Seq<Delivery>) -> bool
    decreases deliveries.len(),
{
    deliveries.len() > 0 && (any_delivers(queue, deliveries.drop_last()) || delivers(
        all_delivered(queue, deliveries.drop_last()),
        deliveries.last(),
    ))
}

proof fn lemma_unsent_remove(items: Seq<QueueItemView>, i: int)
    requires
        0 <= i < items.len(),
        items[i].sent,
    ensures
        unsent(items.remove(i)) == unsent(items),
{
    let keep = |item: QueueItemView| !item.sent;
    let head = items.take(i);
    let tail = items.skip(i + 1);
    let one = seq![items[i]];
    assert(items == head + one + tail);
    assert(items.remove(i) == head + tail);
    Seq::filter_distributes_over_add(head + one, tail, keep);
    Seq::filter_distributes_over_add(head, one, keep);
    Seq::filter_distributes_over_add(head, tail, keep);
    reveal(Seq::filter);
    assert(one.drop_last() == Seq::<QueueItemView>::empty());
    assert(one.drop_last().filter(keep) == Seq::<QueueItemView>::empty());
    assert(one.filter(keep) == Seq::<QueueItemView>::empty());
    assert(head.filter(keep) + one.filter(keep) == head.filter(keep));
}

proof fn lemma_unsent_all(items: Seq<QueueItemView>)
    requires
        forall|j: int| 0 <= j < items.len() ==> !(#[trigger] items[j]).sent,
    ensures
        unsent(items) == items,
    decreases items.len(),
{
    reveal(Seq::filter);
    if items.len() > 0 {
        let head = items.drop_last();
        assert forall|j: int| 0 <= j < head.len() implies !(#[trigger] head[j]).sent by {
            assert(head[j] == items[j]);
        }
        lemma_unsent_all(head);
        assert(!items[items.len() - 1].sent);
        assert(head.push(items.last()) == items);
    }
}

/// Sweeping keeps receivers apart: none is added.
proof fn lemma_swept_keys(queue: QueueView)
    ensures
        forall|i: int|
            0 <= i < swept(queue).len() ==> ordered::has_key(
                queue,
                (#[trigger] swept(queue)[i]).0,
            ),
        ordered::distinct_keys(queue) ==> ordered::distinct_keys(swept(queue)),
    decreases queue.len(),
{
    if queue.len() > 0 {
        let head = queue.drop_last();
        lemma_swept_keys(head);
        let rest = swept(head);
        assert forall|i: int| 0 <= i < swept(queue).len() implies ordered::has_key(
            queue,
            (#[trigger] swept(queue)[i]).0,
        ) by {
            if i < rest.len() {
                assert(swept(queue)[i] == rest[i]);
                let k = choose|k: int| 0 <= k < head.len() && #[trigger] head[k].0 == rest[i].0;
                assert(queue[k].0 == rest[i].0);
            } else {
                assert(queue[queue.len() - 1].0 == swept(queue)[i].0);
            }
        }
        if ordered::distinct_keys(queue) {
            assert forall|i: int, j: int| 0 <= i < j < head.len() implies (
            #[trigger] head[i]).0 != (#[trigger] head[j]).0 by {
                assert(queue[i].0 != queue[j].0);
            }
            assert forall|i: int, j: int| 0 <= i < j < swept(queue).len() implies (
            #[trigger] swept(queue)[i]).0 != (#[trigger] swept(queue)[j]).0 by {
                if j < rest.len() {
                    assert(rest[i].0 != rest[j].0);
                } else {
                    assert(swept(queue)[i] == rest[i]);
                    let k = choose|k: int|
                        0 <= k < head.len() && #[trigger] head[k].0 == rest[i].0;
                    assert(queue[k].0 != queue[queue.len() - 1].0);
                }
            }
        }
    }
}

fn retain_unsent(items: &mut Vec<QueueItem>)
    ensures
        items_view(final(items)@) == unsent(items_view(old(items)@)),
{
    let ghost all = items_view(items@);
    let mut i: usize = 0;
    while i < items.len()
        invariant
            i <= items@.len(),
            unsent(items_view(items@)) == unsent(all),
            forall|j: int| 0 <= j < i ==> !(#[trigger] items_view(items@)[j]).sent,
        decreases items@.len() - i,
    {
        let ghost before = items_view(items@);
        if items[i].sent {
            items.remove(i);
            proof {
                assert(before[i as int].sent);
                assert(items_view(items@) == before.remove(i as int));
                lemma_unsent_remove(before, i as int);
                assert forall|j: int| 0 <= j < i implies !(#[trigger] items_view(
                    items@,
                )[j]).sent by {
                    assert(!before[j].sent);
                }
            }
        } else {
            assert(!before[i as int].sent);
            i = i + 1;
        }
    }
    proof {
        lemma_unsent_all(items_view(items@));
    }
}

impl Queue {
    /// No receiver occurs twice.
    pub open spec fn well_formed(self) -> bool {
        ordered::distinct_keys(self@)
    }

    pub fn new() -> (r: Queue)
        ensures
            r@.len() == 0,
            r.well_formed(),
    {
        Queue { entries: Vec::new() }
    }

    fn position(&self, did: Did) -> (r: Option<usize>)
        requires
            self.well_formed(),
        ensures
            match r {
                Some(i) => {
                    &&& i < self.entries@.len()
                    &&& self.entries@[i as int].did == did
                    &&& ordered::has_key(self@, did)
                    &&& ordered::key_index(self@, did) == i
                },
                None => !ordered::has_key(self@, did),
            },
    {
        let mut i: usize = 0;
        while i < self.entries.len()
            invariant
                self.well_formed(),
                i <= self.entries@.len(),
                forall|j: int| 0 <= j < i ==> (#[trigger] self@[j]).0 != did,
            decreases self.entries@.len() - i,
        {
            if self.entries[i].did == did {
                proof {
                    assert(self@[i as int].0 == did);
                    ordered::lemma_key_index(self@, did, i as int);
                }
                return Some(i);
            }
            assert(self@[i as int].0 != did);
            i = i + 1;
        }
        None
    }

    /// Whether a message of a conversation waits for a receiver.
    pub fn holds(&self, did: Did, id: Uuid, message_id: Uuid) -> (r: bool)
        requires
            self.well_formed(),
        ensures
            r == exists|i: int|
                0 <= i < waiting_for(self@, did).len() && (#[trigger] waiting_for(
                    self@,
                    did,
                )[i]).id == id && waiting_for(self@, did)[i].m_id == Some(message_id),
    {
        let k: usize = match self.position(did) {
            Some(k) => k,
            None => return false,
        };
        let items = &self.entries[k].items;
        let ghost view = waiting_for(self@, did);
        assert(view == items_view(items@)) by {
            assert(self@[k as int] == (did, items_view(items@)));
        }
        let mut i: usize = 0;
        while i < items.len()
            invariant
                i <= items@.len(),
                view == waiting_for(self@, did),
                view == items_view(items@),
                forall|j: int|
                    0 <= j < i ==> !((#[trigger] view[j]).id == id && view[j].m_id == Some(
                        message_id,
                    )),
            decreases items@.len() - i,
        {
            assert(view[i as int] == items@[i as int]@);
            if items[i].id == id {
                match items[i].m_id {
                    Some(m_id) => {
                        if m_id == message_id {
                            assert(view[i as int].id == id);
                            return true;
                        }
                    },
                    None => {},
                }
            }
            i = i + 1;
        }
        false
    }

    /// Lets an item wait for a receiver.
    pub fn queue_event(&mut self, did: Did, item: QueueItem)
        requires
            old(self).well_formed(),
        ensures
            final(self)@ == queued(old(self)@, did, item@),
            final(self).well_formed(),
    {
        let ghost before = self@;
        match self.position(did) {
            Some(i) => {
                let ghost items = self.entries@[i as int].items@;
                assert(before[i as int] == (did, items_view(items)));
                self.entries[i].items.push(item);
                proof {
                    assert(items_view(items.push(item)) == items_view(items).push(item@));
                    assert(self@ == before.update(i as int, (did, items_view(items).push(item@))));
                }
            },
            None => {
                let mut items: Vec<QueueItem> = Vec::new();
                items.push(item);
                self.entries.push(QueueEntry { did, items });
                proof {
                    assert(items_view(items@) == Seq::<QueueItemView>::empty().push(item@));
                    assert(self@ == before.push((did, items_view(items@))));
                    assert forall|j: int| 0 <= j < before.len() implies (
                    #[trigger] before[j]).0 != did by {
                        if before[j].0 == did {
                            assert(ordered::has_key(before, did));
                        }
                    }
                }
            },
        }
    }

    /// Lets what was published wait for each other member who does not listen, where `queue` is
    /// set. Returns whether another member listens.
    pub fn publish(
        &mut self,
        recipients: &Vec<Did>,
        own: Did,
        listening: &Vec<Did>,
        id: Uuid,
        message_id: Option<Uuid>,
        topic: &String,
        data: &Vec<u8>,
        queue: bool,
    ) -> (r: bool)
        requires
            old(self).well_formed(),
        ensures
            r == someone_listens(recipients@, own, listening@),
            final(self)@ == (if queue {
                published(
                    old(self)@,
                    recipients@,
                    own,
                    listening@,
                    QueueItemView {
                        id,
                        m_id: message_id,
                        peer: own,
                        topic: topic@,
                        data: data@,
                        sent: false,
                    },
                )
            } else {
                old(self)@
            }),
            final(self).well_formed(),
    {
        let ghost before = self@;
        let ghost item = QueueItemView {
            id,
            m_id: message_id,
            peer: own,
            topic: topic@,
            data: data@,
            sent: false,
        };
        let mut can_publish: bool = false;
        let mut i: usize = 0;
        assert(recipients@.take(0) == Seq::<Did>::empty());
        while i < recipients.len()
            invariant
                i <= recipients@.len(),
                self.well_formed(),
                item == (QueueItemView {
                    id,
                    m_id: message_id,
                    peer: own,
                    topic: topic@,
                    data: data@,
                    sent: false,
                }),
                can_publish == someone_listens(recipients@.take(i as int), own, listening@),
                self@ == (if queue {
                    published(before, recipients@.take(i as int), own, listening@, item)
                } else {
                    before
                }),
            decreases recipients@.len() - i,
        {
            let did: Did = recipients[i];
            let ghost head = recipients@.take(i as int);
            let ghost next = recipients@.take(i + 1);
            proof {
                assert(next.drop_last() == head);
                assert(next.last() == did);
                assert(forall|j: int| 0 <= j < head.len() ==> next[j] == head[j]);
                assert(next[i as int] == did);
                if someone_listens(head, own, listening@) {
                    let j = choose|j: int|
                        0 <= j < head.len() && #[trigger] head[j] != own && listening@.contains(
                            head[j],
                        );
                    assert(next[j] != own && listening@.contains(next[j]));
                }
                if someone_listens(next, own, listening@) {
                    let j = choose|j: int|
                        0 <= j < next.len() && #[trigger] next[j] != own && listening@.contains(
                            next[j],
                        );
                    if j < i {
                        assert(head[j] != own && listening@.contains(head[j]));
                    }
                }
            }
            if did != own {
                if contains_did(listening, did) {
                    can_publish = true;
                } else if queue {
                    let item = QueueItem::direct(
                        id,
                        message_id,
                        did,
                        topic.clone(),
                        copy_bytes(data),
                    );
                    self.queue_event(did, item);
                }
            }
            i = i + 1;
        }
        assert(recipients@.take(recipients@.len() as int) == recipients@);
        can_publish
    }

    /// Notes a delivery. Returns whether it was of an item that is there and not sent.
    pub fn mark_sent(&mut self, delivery: Delivery) -> (r: bool)
        requires
            old(self).well_formed(),
        ensures
            r == delivers(old(self)@, delivery),
            final(self)@ == delivered(old(self)@, delivery),
            final(self).well_formed(),
    {
        let ghost before = self@;
        match self.position(delivery.did) {
            Some(i) => {
                let ghost items = self.entries@[i as int].items@;
                assert(before[i as int] == (delivery.did, items_view(items)));
                if delivery.index < self.entries[i].items.len()
                    && !self.entries[i].items[delivery.index].sent {
                    assert(items_view(items)[delivery.index as int] == items[delivery.index as int]@);
                    self.entries[i].items[delivery.index].sent = true;
                    proof {
                        let item = items_view(items)[delivery.index as int];
                        let changed = items_view(items).update(
                            delivery.index as int,
                            QueueItemView { sent: true, ..item },
                        );
                        assert(items_view(self.entries@[i as int].items@) == changed);
                        assert(self@ == before.update(i as int, (delivery.did, changed)));
                    }
                    true
                } else {
                    proof {
                        if delivery.index < items.len() {
                            assert(items_view(items)[delivery.index as int]
                                == items[delivery.index as int]@);
                        }
                    }
                    false
                }
            },
            None => false,
        }
    }

    /// Takes out what is sent, and receivers for whom nothing waits.
    pub fn sweep(&mut self)
        requires
            old(self).well_formed(),
        ensures
            final(self)@ == swept(old(self)@),
            final(self).well_formed(),
    {
        let ghost before = self@;
        let ghost mut k: int = 0;
        let mut i: usize = 0;
        assert(self@.take(0) == swept(before.take(0)));
        assert(self@.skip(0) == before.skip(0));
        while i < self.entries.len()
            invariant
                0 <= k <= before.len(),
                i <= self.entries@.len(),
                self@.take(i as int) == swept(before.take(k)),
                self@.skip(i as int) == before.skip(k),
                self@.len() - i == before.len() - k,
            decreases before.len() - k,
        {
            let ghost current = self@;
            let ghost items = self.entries@[i as int].items@;
            let ghost did = self.entries@[i as int].did;
            proof {
                assert(current.skip(i as int)[0] == current[i as int]);
                assert(before.skip(k)[0] == before[k]);
                assert(before[k] == (did, items_view(items)));
                assert(before.take(k + 1).drop_last() == before.take(k));
                assert(before.take(k + 1).last() == before[k]);
            }
            retain_unsent(&mut self.entries[i].items);
            assert(self@ == current.update(i as int, (did, unsent(items_view(items)))));
            let ghost marked = self@;
            if self.entries[i].items.len() == 0 {
                assert(unsent(items_view(items)).len() == 0) by {
                    assert(items_view(self.entries@[i as int].items@).len() == 0);
                }
                self.entries.remove(i);
                proof {
                    assert(self@ == marked.remove(i as int));
                    assert(self@.take(i as int) == current.take(i as int));
                    assert(self@.skip(i as int) == current.skip(i as int).skip(1));
                    assert(before.skip(k + 1) == before.skip(k).skip(1));
                }
            } else {
                assert(unsent(items_view(items)).len() != 0) by {
                    assert(items_view(self.entries@[i as int].items@).len()
                        == self.entries@[i as int].items@.len());
                }
                proof {
                    assert(self@.take(i + 1) == current.take(i as int).push(
                        (did, unsent(items_view(items))),
                    ));
                    assert(self@.skip(i + 1) == current.skip(i as int).skip(1));
                    assert(before.skip(k + 1) == before.skip(k).skip(1));
                }
                i = i + 1;
            }
            proof {
                k = k + 1;
            }
        }
        proof {
            assert(self@.take(i as int) == self@);
            assert(before.take(k) == before);
            lemma_swept_keys(before);
        }
    }

    /// Notes deliveries and takes out what is sent. Returns whether anything was delivered, so
    /// that the queue has to be stored again.
    pub fn process_queue(&mut self, deliveries: &Vec<Delivery>) -> (r: bool)
        requires
            old(self).well_formed(),
        ensures
            r == any_delivers(old(self)@, deliveries@),
            final(self)@ == swept(all_delivered(old(self)@, deliveries@)),
            final(self).well_formed(),
    {
        let ghost before = self@;
        let mut changed: bool = false;
        let mut i: usize = 0;
        assert(deliveries@.take(0) == Seq::<Delivery>::empty());
        while i < deliveries.len()
            invariant
                i <= deliveries@.len(),
                self.well_formed(),
                self@ == all_delivered(before, deliveries@.take(i as int)),
                changed == any_delivers(before, deliveries@.take(i as int)),
            decreases deliveries@.len() - i,
        {
            proof {
                assert(deliveries@.take(i + 1).drop_last() == deliveries@.take(i as int));
                assert(deliveries@.take(i + 1).last() == deliveries@[i as int]);
            }
            if self.mark_sent(deliveries[i]) {
                changed = true;
            }
            i = i + 1;
        }
        assert(deliveries@.take(deliveries@.len() as int) == deliveries@);
        self.sweep();
        changed
    }
}

} // verus!
