//! Messages that waited in a mailbox: fetching them and putting them into the conversation.
use vstd::prelude::*;
use std::collections::BTreeMap;
use crate::encoding::{self, parse_uuid};
use crate::ids::{Cid, PeerId, Timestamp, Uuid};
use super::document::{self, ConversationDocument};
use super::incoming::Keeper;
use super::message::Message;
use super::{MailboxCommand, MessageEventKind};

verus! {

/// What a mailbox answered.
pub enum FetchOutcome {
    /// The messages that wait there, by the text of their identifiers.
    List(Vec<(String, Cid)>),
    Refused,
    Closed,
    TimedOut,
}

/// What follows from an answer.
pub enum FetchStep {
    /// Another mailbox is asked.
    Next,
    /// No other mailbox is asked. Holds what was found.
    Stop(Option<Vec<(String, Cid)>>),
}

/// Mailboxes are asked in turn until one answers, be it with a refusal.
pub fn fetch_step(outcome: FetchOutcome) -> (r: FetchStep)
    ensures
        r == (match outcome {
            FetchOutcome::List(list) => FetchStep::Stop(Some(list)),
            FetchOutcome::Refused => FetchStep::Stop(None),
            FetchOutcome::Closed | FetchOutcome::TimedOut => FetchStep::Next,
        }),
{
    match outcome {
        FetchOutcome::List(list) => FetchStep::Stop(Some(list)),
        FetchOutcome::Refused => FetchStep::Stop(None),
        FetchOutcome::Closed | FetchOutcome::TimedOut => FetchStep::Next,
    }
}

/// The messages of a mailbox by their identifiers. A text that is no identifier is left out; of
/// two texts of one identifier the later counts.
pub open spec fn parsed_mailbox(list: Seq<(String, Cid)>) -> Map<u128, Cid>
    decreases list.len(),
{
    if list.len() == 0 {
        Map::empty()
    } else {
        let rest = parsed_mailbox(list.drop_last());
        match encoding::parsed_uuid(list.last().0@) {
            Some(id) => rest.insert(id, list.last().1),
            None => rest,
        }
    }
}

/// The messages of a mailbox by their identifiers.
pub fn parse_mailbox(list: &Vec<(String, Cid)>) -> (r: BTreeMap<u128, Cid>)
    ensures
        r@ == parsed_mailbox(list@),
{
    broadcast use vstd::std_specs::btree::group_btree_axioms;

    let mut r: BTreeMap<u128, Cid> = BTreeMap::new();
    let mut i: usize = 0;
    assert(list@.take(0) == Seq::<(String, Cid)>::empty());
    while i < list.len()
        invariant
            i <= list@.len(),
            r@ == parsed_mailbox(list@.take(i as int)),
        decreases list@.len() - i,
    {
        proof {
            assert(list@.take(i + 1).drop_last() == list@.take(i as int));
            assert(list@.take(i + 1).last() == list@[i as int]);
        }
        match parse_uuid(list[i].0.as_str()) {
            Some(id) => {
                r.insert(id, list[i].1);
            },
            None => {},
        }
        i = i + 1;
    }
    assert(list@.take(list@.len() as int) == list@);
    r
}

/// A message from a mailbox, and whether its signature is good.
pub struct MailboxMessage {
    pub message: Message,
    pub verified: bool,
}

/// The messages whose arrival the mailboxes are told of: for a task, those whose signature is good;
/// for the store, all that were fetched.
pub open spec fn arrived(messages: Seq<MailboxMessage>, keeper: Keeper) -> Seq<Uuid>
    decreases messages.len(),
{
    if messages.len() == 0 {
        Seq::empty()
    } else {
        let rest = arrived(messages.drop_last(), keeper);
        if messages.last().verified || keeper is Store {
            rest.push(messages.last().message.id)
        } else {
            rest
        }
    }
}

/// The messages whose arrival the mailboxes are told of, so that they do not keep them.
pub fn arrivals(messages: &Vec<MailboxMessage>, keeper: Keeper) -> (r: Vec<Uuid>)
    ensures
        r@ == arrived(messages@, keeper),
{
    let mut r: Vec<Uuid> = Vec::new();
    let mut i: usize = 0;
    assert(messages@.take(0) == Seq::<MailboxMessage>::empty());
    while i < messages.len()
        invariant
            i <= messages@.len(),
            r@ == arrived(messages@.take(i as int), keeper),
        decreases messages@.len() - i,
    {
        proof {
            assert(messages@.take(i + 1).drop_last() == messages@.take(i as int));
            assert(messages@.take(i + 1).last() == messages@[i as int]);
        }
        if messages[i].verified || keeper == Keeper::Store {
            r.push(messages[i].message.id);
        }
        i = i + 1;
    }
    assert(messages@.take(messages@.len() as int) == messages@);
    r
}

/// How other nodes are found.
pub enum Discovery {
    /// By shuttle nodes, each of which may name its peer in its address.
    Shuttle { addresses: Vec<Option<PeerId>> },
    Other,
}

/// The peers that addresses name, in order.
pub open spec fn named_peers(addresses: Seq<Option<PeerId>>) -> Seq<PeerId>
    decreases addresses.len(),
{
    if addresses.len() == 0 {
        Seq::empty()
    } else {
        let rest = named_peers(addresses.drop_last());
        match addresses.last() {
            Some(peer_id) => rest.push(peer_id),
            None => rest,
        }
    }
}

impl Discovery {
    /// The nodes that keep mailboxes. Without shuttle nodes there are none.
    pub open spec fn spec_mailboxes(self) -> Seq<PeerId> {
        match self {
            Discovery::Shuttle { addresses } => named_peers(addresses@),
            Discovery::Other => Seq::empty(),
        }
    }

    /// The nodes that keep mailboxes, in the order in which they are asked and told.
    pub fn mailboxes(&self) -> (r: Vec<PeerId>)
        ensures
            r@ == self.spec_mailboxes(),
    {
        let mut r: Vec<PeerId> = Vec::new();
        match self {
            Discovery::Shuttle { addresses } => {
                let mut i: usize = 0;
                assert(addresses@.take(0) == Seq::<Option<PeerId>>::empty());
                while i < addresses.len()
                    invariant
                        i <= addresses@.len(),
                        r@ == named_peers(addresses@.take(i as int)),
                    decreases addresses@.len() - i,
                {
                    proof {
                        assert(addresses@.take(i + 1).drop_last() == addresses@.take(i as int));
                        assert(addresses@.take(i + 1).last() == addresses@[i as int]);
                    }
                    match addresses[i] {
                        Some(peer_id) => {
                            r.push(peer_id);
                        },
                        None => {},
                    }
                    i = i + 1;
                }
                assert(addresses@.take(addresses@.len() as int) == addresses@);
            },
            Discovery::Other => {},
        }
        r
    }

    /// The node that is asked for a mailbox after `asked` others were asked in vain.
    pub fn next_mailbox(&self, asked: usize) -> (r: Option<PeerId>)
        ensures
            r == (if asked < self.spec_mailboxes().len() {
                Some(self.spec_mailboxes()[asked as int])
            } else {
                None
            }),
    {
        let nodes = self.mailboxes();
        if asked < nodes.len() {
            Some(nodes[asked])
        } else {
            None
        }
    }
}

/// What one node is told of a mailbox.
#[derive(Clone, Copy, PartialEq, Eq, Structural, Debug)]
pub struct MailboxNotice {
    pub peer_id: PeerId,
    pub conversation_id: Uuid,
    pub command: MailboxCommand,
}

/// What the nodes are told of the mailbox of a conversation: each command goes to every node.
pub open spec fn notices(
    nodes: Seq<PeerId>,
    conversation_id: Uuid,
    commands: Seq<MailboxCommand>,
) -> Seq<MailboxNotice>
    decreases commands.len(),
{
    if commands.len() == 0 {
        Seq::empty()
    } else {
        notices(nodes, conversation_id, commands.drop_last()) + nodes.map_values(
            |peer_id: PeerId|
                MailboxNotice { peer_id, conversation_id, command: commands.last() },
        )
    }
}

/// The commands that tell of arrivals.
pub open spec fn delivered(ids: Seq<Uuid>) -> Seq<MailboxCommand> {
    ids.map_values(|message_id: Uuid| MailboxCommand::MessageDelivered { message_id })
}

/// Every node with a mailbox is told of every command, and nobody else of anything.
pub proof fn every_mailbox_is_told(
    nodes: Seq<PeerId>,
    conversation_id: Uuid,
    commands: Seq<MailboxCommand>,
    notice: MailboxNotice,
)
    ensures
        notices(nodes, conversation_id, commands).contains(notice) <==> nodes.contains(
            notice.peer_id,
        ) && commands.contains(notice.command) && notice.conversation_id == conversation_id,
    decreases commands.len(),
{
    let all = notices(nodes, conversation_id, commands);
    if commands.len() > 0 {
        let head = commands.drop_last();
        let rest = notices(nodes, conversation_id, head);
        let last = nodes.map_values(
            |peer_id: PeerId|
                MailboxNotice { peer_id, conversation_id, command: commands.last() },
        );
        every_mailbox_is_told(nodes, conversation_id, head, notice);
        if all.contains(notice) {
            let k = choose|k: int| 0 <= k < all.len() && all[k] == notice;
            if k < rest.len() {
                assert(rest[k] == notice);
                let c = choose|c: int| 0 <= c < head.len() && head[c] == notice.command;
                assert(commands[c] == notice.command);
            } else {
                assert(last[k - rest.len()] == notice);
                assert(nodes[k - rest.len()] == notice.peer_id);
                assert(commands[commands.len() - 1] == notice.command);
            }
        }
        if nodes.contains(notice.peer_id) && commands.contains(notice.command)
            && notice.conversation_id == conversation_id {
            let c = choose|c: int| 0 <= c < commands.len() && commands[c] == notice.command;
            if c < head.len() {
                assert(head[c] == notice.command);
                let k = choose|k: int| 0 <= k < rest.len() && rest[k] == notice;
                assert(all[k] == notice);
            } else {
                let n = choose|n: int| 0 <= n < nodes.len() && nodes[n] == notice.peer_id;
                assert(last[n] == notice);
                assert(all[rest.len() + n] == notice);
            }
        }
    }
}

/// Without a shuttle node nobody is asked for a mailbox, nor told of anything.
pub proof fn nothing_without_shuttle(
    discovery: Discovery,
    conversation_id: Uuid,
    commands: Seq<MailboxCommand>,
)
    requires
        discovery is Other,
    ensures
        discovery.spec_mailboxes().len() == 0,
        notices(discovery.spec_mailboxes(), conversation_id, commands).len() == 0,
    decreases commands.len(),
{
    if commands.len() > 0 {
        nothing_without_shuttle(discovery, conversation_id, commands.drop_last());
    }
}

/// What the nodes are told of the mailbox of a conversation.
pub fn tell_mailboxes(
    discovery: &Discovery,
    conversation_id: Uuid,
    commands: &Vec<MailboxCommand>,
) -> (r: Vec<MailboxNotice>)
    ensures
        r@ == notices(discovery.spec_mailboxes(), conversation_id, commands@),
{
    let nodes = discovery.mailboxes();
    let mut r: Vec<MailboxNotice> = Vec::new();
    let mut i: usize = 0;
    assert(commands@.take(0) == Seq::<MailboxCommand>::empty());
    while i < commands.len()
        invariant
            i <= commands@.len(),
            nodes@ == discovery.spec_mailboxes(),
            r@ == notices(nodes@, conversation_id, commands@.take(i as int)),
        decreases commands@.len() - i,
    {
        let command: MailboxCommand = commands[i];
        let ghost before = r@;
        let ghost more = nodes@.map_values(
            |peer_id: PeerId| MailboxNotice { peer_id, conversation_id, command },
        );
        let mut k: usize = 0;
        while k < nodes.len()
            invariant
                k <= nodes@.len(),
                more == nodes@.map_values(
                    |peer_id: PeerId| MailboxNotice { peer_id, conversation_id, command },
                ),
                r@ == before + more.take(k as int),
            decreases nodes@.len() - k,
        {
            r.push(MailboxNotice { peer_id: nodes[k], conversation_id, command });
            proof {
                assert(more.take(k + 1) == more.take(k as int).push(more[k as int]));
            }
            k = k + 1;
        }
        proof {
            assert(more.take(k as int) == more);
            assert(commands@.take(i + 1).drop_last() == commands@.take(i as int));
            assert(commands@.take(i + 1).last() == command);
        }
        i = i + 1;
    }
    assert(commands@.take(commands@.len() as int) == commands@);
    r
}

/// What the nodes are told of messages that were fetched.
pub fn tell_arrivals(
    discovery: &Discovery,
    conversation_id: Uuid,
    messages: &Vec<MailboxMessage>,
    keeper: Keeper,
) -> (r: Vec<MailboxNotice>)
    ensures
        r@ == notices(
            discovery.spec_mailboxes(),
            conversation_id,
            delivered(arrived(messages@, keeper)),
        ),
{
    let ids = arrivals(messages, keeper);
    let mut commands: Vec<MailboxCommand> = Vec::new();
    let mut i: usize = 0;
    while i < ids.len()
        invariant
            i <= ids@.len(),
            commands@ == delivered(ids@.take(i as int)),
        decreases ids@.len() - i,
    {
        commands.push(MailboxCommand::MessageDelivered { message_id: ids[i] });
        proof {
            assert(ids@.take(i + 1) == ids@.take(i as int).push(ids@[i as int]));
            assert(commands@ == delivered(ids@.take(i + 1)));
        }
        i = i + 1;
    }
    assert(ids@.take(ids@.len() as int) == ids@);
    tell_mailboxes(discovery, conversation_id, &commands)
}

/// The newest messages come first.
pub open spec fn newest_first(messages: Seq<MailboxMessage>) -> bool {
    forall|i: int, j: int|
        0 <= i < j < messages.len() ==> (#[trigger] messages[i]).message.date >= (
        #[trigger] messages[j]).message.date
}

/// The messages of one moment, in order.
pub open spec fn of_date(
    messages: Seq<MailboxMessage>,
    date: Timestamp,
) -> Seq<MailboxMessage> {
    messages.filter(|m: MailboxMessage| m.message.date == date)
}

/// The messages in the order in which they are put in: the newest first, and those of one moment
/// as they came.
pub open spec fn is_sorted_of(sorted: Seq<MailboxMessage>, messages: Seq<MailboxMessage>) -> bool {
    &&& newest_first(sorted)
    &&& forall|date: Timestamp| #[trigger] of_date(sorted, date) == of_date(messages, date)
}

proof fn lemma_of_date_none(messages: Seq<MailboxMessage>, date: Timestamp)
    requires
        forall|i: int| 0 <= i < messages.len() ==> (#[trigger] messages[i]).message.date != date,
    ensures
        of_date(messages, date) == Seq::<MailboxMessage>::empty(),
    decreases messages.len(),
{
    reveal(Seq::filter);
    if messages.len() > 0 {
        let head = messages.drop_last();
        assert forall|i: int| 0 <= i < head.len() implies (#[trigger] head[i]).message.date
            != date by {
            assert(head[i] == messages[i]);
        }
        lemma_of_date_none(head, date);
        assert(messages[messages.len() - 1].message.date != date);
    }
}

/// Putting a message before all older ones, and behind those of its own moment, keeps the order
/// of every moment.
proof fn lemma_inserted(sorted: Seq<MailboxMessage>, x: MailboxMessage, pos: int, date: Timestamp)
    requires
        0 <= pos <= sorted.len(),
        forall|i: int| pos <= i < sorted.len() ==> (#[trigger] sorted[i]).message.date < x.message.date,
    ensures
        of_date(sorted.insert(pos, x), date) == of_date(sorted.push(x), date),
{
    let keep = |m: MailboxMessage| m.message.date == date;
    let head = sorted.take(pos);
    let tail = sorted.skip(pos);
    let one = seq![x];
    assert(sorted.insert(pos, x) == head + one + tail);
    assert(sorted.push(x) == head + tail + one);
    Seq::filter_distributes_over_add(head + one, tail, keep);
    Seq::filter_distributes_over_add(head, one, keep);
    Seq::filter_distributes_over_add(head + tail, one, keep);
    Seq::filter_distributes_over_add(head, tail, keep);
    reveal(Seq::filter);
    assert(one.drop_last() == Seq::<MailboxMessage>::empty());
    assert(one.drop_last().filter(keep) == Seq::<MailboxMessage>::empty());
    if x.message.date == date {
        assert forall|i: int| 0 <= i < tail.len() implies (#[trigger] tail[i]).message.date
            != date by {
            assert(tail[i] == sorted[i + pos]);
        }
        lemma_of_date_none(tail, date);
        assert(tail.filter(keep) == Seq::<MailboxMessage>::empty());
    } else {
        assert(one.filter(keep) == Seq::<MailboxMessage>::empty());
    }
    assert(head.filter(keep) + one.filter(keep) + tail.filter(keep) == head.filter(keep)
        + tail.filter(keep) + one.filter(keep));
}

/// Sorts messages so that the newest come first. Messages of one moment keep their order.
pub fn sort_newest_first(messages: Vec<MailboxMessage>) -> (r: Vec<MailboxMessage>)
    ensures
        is_sorted_of(r@, messages@),
{
    let ghost all = messages@;
    let n: usize = messages.len();
    let mut rest = messages;
    let mut sorted: Vec<MailboxMessage> = Vec::new();
    let mut k: usize = 0;
    assert(all.take(0) == Seq::<MailboxMessage>::empty());
    assert(all.skip(0) == all);
    while k < n
        invariant
            n == all.len(),
            k <= n,
            rest@ == all.skip(k as int),
            newest_first(sorted@),
            forall|date: Timestamp| #[trigger]
                of_date(sorted@, date) == of_date(all.take(k as int), date),
        decreases n - k,
    {
        assert(rest@[0] == all[k as int]);
        let x = rest.remove(0);
        assert(rest@ == all.skip(k + 1));
        let date: Timestamp = x.message.date;
        let mut pos: usize = sorted.len();
        while pos > 0 && sorted[pos - 1].message.date < date
            invariant
                pos <= sorted@.len(),
                date == x.message.date,
                forall|i: int|
                    pos <= i < sorted@.len() ==> (#[trigger] sorted@[i]).message.date < date,
            decreases pos,
        {
            pos = pos - 1;
        }
        let ghost before = sorted@;
        sorted.insert(pos, x);
        proof {
            assert(sorted@ == before.insert(pos as int, x));
            assert forall|i: int, j: int| 0 <= i < j < sorted@.len() implies (
            #[trigger] sorted@[i]).message.date >= (#[trigger] sorted@[j]).message.date by {
                let a = if i < pos { i } else { i - 1 };
                let b = if j < pos { j } else { j - 1 };
                if i == pos {
                    assert(before[b].message.date < date);
                } else if j == pos {
                    assert(before[pos - 1].message.date >= date);
                    if a < pos - 1 {
                        assert(before[a].message.date >= before[pos - 1].message.date);
                    }
                } else {
                    assert(before[a].message.date >= before[b].message.date);
                }
            }
            assert(all.take(k + 1) == all.take(k as int).push(all[k as int]));
            assert forall|d: Timestamp| #[trigger] of_date(sorted@, d) == of_date(
                all.take(k + 1),
                d,
            ) by {
                lemma_inserted(before, x, pos as int, d);
                reveal(Seq::filter);
                assert(before.push(x).drop_last() == before);
                assert(all.take(k + 1).drop_last() == all.take(k as int));
                assert(of_date(before, d) == of_date(all.take(k as int), d));
            }
        }
        k = k + 1;
    }
    assert(all.take(all.len() as int) == all);
    sorted
}

/// Whether a message is a later version of the one that is known.
pub open spec fn is_edited(modified: Option<Timestamp>, current: Option<Timestamp>) -> bool {
    match (modified, current) {
        (Some(m), Some(c)) => m > c,
        (Some(_), None) => true,
        (None, _) => false,
    }
}

/// The messages after others were put in: a known one is replaced, an unknown one comes last, and
/// one whose signature is bad is left out.
pub open spec fn with_mailbox(existing: Seq<Message>, incoming: Seq<MailboxMessage>) -> Seq<Message>
    decreases incoming.len(),
{
    if incoming.len() == 0 {
        existing
    } else {
        let rest = with_mailbox(existing, incoming.drop_last());
        let x = incoming.last();
        if !x.verified {
            rest
        } else if document::has_message(rest, x.message.id) {
            rest.update(document::message_index(rest, x.message.id), x.message)
        } else {
            rest.push(x.message)
        }
    }
}

/// What the subscribers are told of the messages that were put in.
pub open spec fn mailbox_events(
    conversation_id: Uuid,
    existing: Seq<Message>,
    incoming: Seq<MailboxMessage>,
) -> Seq<MessageEventKind>
    decreases incoming.len(),
{
    if incoming.len() == 0 {
        Seq::empty()
    } else {
        let rest = mailbox_events(conversation_id, existing, incoming.drop_last());
        let known = with_mailbox(existing, incoming.drop_last());
        let x = incoming.last();
        let message_id = x.message.id;
        if !x.verified {
            rest
        } else if document::has_message(known, message_id) {
            if is_edited(
                x.message.modified,
                known[document::message_index(known, message_id)].modified,
            ) {
                rest.push(MessageEventKind::MessageEdited { conversation_id, message_id })
            } else {
                rest
            }
        } else {
            rest.push(MessageEventKind::MessageReceived { conversation_id, message_id })
        }
    }
}

fn edited(modified: Option<Timestamp>, current: Option<Timestamp>) -> (r: bool)
    ensures
        r == is_edited(modified, current),
{
    match (modified, current) {
        (Some(m), Some(c)) => m > c,
        (Some(_), None) => true,
        (None, _) => false,
    }
}

/// What merging a mailbox does.
pub open spec fn merge_post(
    before: ConversationDocument,
    after: ConversationDocument,
    events: Seq<MessageEventKind>,
    incoming: Seq<MailboxMessage>,
) -> bool {
    &&& after.messages@ == with_mailbox(before.messages@, incoming)
    &&& after == (ConversationDocument { messages: after.messages, ..before })
    &&& events == mailbox_events(before.id, before.messages@, incoming)
}

/// What merging a mailbox does when the newest messages are put in first.
pub open spec fn load_from_mailbox_post(
    before: ConversationDocument,
    after: ConversationDocument,
    events: Seq<MessageEventKind>,
    incoming: Seq<MailboxMessage>,
) -> bool {
    exists|sorted: Seq<MailboxMessage>|
        is_sorted_of(sorted, incoming) && #[trigger] merge_post(before, after, events, sorted)
}

/// What merging a mailbox does when the newest messages are put in first, and the subscribers are
/// told of the oldest first.
pub open spec fn insert_messages_from_mailbox_post(
    before: ConversationDocument,
    after: ConversationDocument,
    events: Seq<MessageEventKind>,
    incoming: Seq<MailboxMessage>,
) -> bool {
    load_from_mailbox_post(before, after, events.reverse(), incoming)
}

impl ConversationDocument {
    /// Puts messages from a mailbox in. Returns what the subscribers are told, in order.
    pub fn merge_mailbox(&mut self, incoming: Vec<MailboxMessage>) -> (r: Vec<MessageEventKind>)
        ensures
            merge_post(*old(self), *final(self), r@, incoming@),
            old(self).well_formed() ==> final(self).well_formed(),
    {
        let ghost before = *self;
        let ghost all = incoming@;
        let n: usize = incoming.len();
        let mut rest = incoming;
        let mut events: Vec<MessageEventKind> = Vec::new();
        let mut k: usize = 0;
        assert(all.take(0) == Seq::<MailboxMessage>::empty());
        assert(all.skip(0) == all);
        while k < n
            invariant
                n == all.len(),
                k <= n,
                rest@ == all.skip(k as int),
                self.messages@ == with_mailbox(before.messages@, all.take(k as int)),
                *self == (ConversationDocument { messages: self.messages, ..before }),
                events@ == mailbox_events(before.id, before.messages@, all.take(k as int)),
                before.well_formed() ==> self.well_formed(),
            decreases n - k,
        {
            proof {
                assert(rest@[0] == all[k as int]);
                assert(all.take(k + 1).drop_last() == all.take(k as int));
                assert(all.take(k + 1).last() == all[k as int]);
            }
            let x = rest.remove(0);
            assert(rest@ == all.skip(k + 1));
            if x.verified {
                let conversation_id: Uuid = self.id;
                let message_id: Uuid = x.message.id;
                match self.position(message_id) {
                    Some(i) => {
                        let newer: bool = edited(x.message.modified, self.messages[i].modified);
                        self.messages[i] = x.message;
                        if newer {
                            events.push(
                                MessageEventKind::MessageEdited { conversation_id, message_id },
                            );
                        }
                    },
                    None => {
                        self.messages.push(x.message);
                        events.push(
                            MessageEventKind::MessageReceived { conversation_id, message_id },
                        );
                    },
                }
            }
            k = k + 1;
        }
        assert(all.take(all.len() as int) == all);
        events
    }

    /// Puts messages from a mailbox in, the newest first. Returns what the subscribers are told.
    pub fn load_from_mailbox(&mut self, incoming: Vec<MailboxMessage>) -> (r: Vec<
        MessageEventKind,
    >)
        ensures
            load_from_mailbox_post(*old(self), *final(self), r@, incoming@),
            old(self).well_formed() ==> final(self).well_formed(),
    {
        let sorted = sort_newest_first(incoming);
        let ghost s = sorted@;
        let events = self.merge_mailbox(sorted);
        assert(merge_post(*old(self), *self, events@, s));
        events
    }

    /// Puts messages from a mailbox in, the newest first. Returns what the subscribers are told,
    /// of the oldest message first.
    pub fn insert_messages_from_mailbox(&mut self, incoming: Vec<MailboxMessage>) -> (r: Vec<
        MessageEventKind,
    >)
        ensures
            insert_messages_from_mailbox_post(*old(self), *final(self), r@, incoming@),
            old(self).well_formed() ==> final(self).well_formed(),
    {
        let sorted = sort_newest_first(incoming);
        let ghost s = sorted@;
        let mut events = self.merge_mailbox(sorted);
        let ghost all = events@;
        let n: usize = events.len();
        let mut told: Vec<MessageEventKind> = Vec::new();
        while events.len() > 0
            invariant
                n == all.len(),
                events@.len() + told@.len() == n,
                events@ == all.take(events@.len() as int),
                forall|i: int| 0 <= i < told@.len() ==> #[trigger] told@[i] == all[n - 1 - i],
            decreases events@.len(),
        {
            match events.pop() {
                Some(event) => {
                    told.push(event);
                },
                None => {},
            }
        }
        assert(told@.reverse() == all);
        assert(merge_post(*old(self), *self, told@.reverse(), s));
        told
    }
}

} // verus!
