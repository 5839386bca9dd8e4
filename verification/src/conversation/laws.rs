//! What holds of several steps in a conversation together.
use vstd::prelude::*;
use crate::error::Error;
use crate::ids::{self, Did, Timestamp, Uuid};
use crate::ordered;
use super::chat;
use super::document::{self, ConversationDocument};
use super::exchange;
use super::incoming::{self, Keeper, MessagingEvents};
use super::info;
use super::lifecycle;
use super::mailbox::{self, MailboxMessage};
use super::members;
use super::message::{self, Message};
use super::queue;
use super::store::{self, ConversationInner};
use super::task;
use super::{Effects, Limits, PinState, RayGunEventKind, ReactionState};

verus! {

/// Reactions as they are kept: no reaction occurs twice, each is held by someone, and nobody holds
/// one twice.
pub open spec fn proper_reactions(entries: message::Reactions) -> bool {
    &&& ordered::distinct_keys(entries)
    &&& forall|i: int|
        0 <= i < entries.len() ==> (#[trigger] entries[i]).1.len() > 0
            && entries[i].1.no_duplicates()
}

/// Taking someone off a list leaves no one twice who was not there twice.
proof fn lemma_without_no_duplicates(list: Seq<Did>, who: Did)
    requires
        list.no_duplicates(),
    ensures
        ids::without(list, who).no_duplicates(),
    decreases list.len(),
{
    reveal(Seq::filter);
    if list.len() > 0 {
        let head = list.drop_last();
        assert(head.no_duplicates());
        lemma_without_no_duplicates(head, who);
        ids::without_members(head, who, list.last());
        assert(!head.contains(list.last())) by {
            if head.contains(list.last()) {
                let i = choose|i: int| 0 <= i < head.len() && head[i] == list.last();
                assert(list[i] == list[list.len() - 1]);
            }
        }
    }
}

/// Reactions stay as they are kept, whoever adds one or takes one back.
pub proof fn reactions_stay_proper(
    entries: message::Reactions,
    who: Did,
    state: ReactionState,
    emoji: Seq<char>,
    max: usize,
)
    requires
        proper_reactions(entries),
        message::reaction_refusal(entries, who, state, emoji, max) is None,
    ensures
        proper_reactions(message::reacted(entries, who, state, emoji)),
{
    let current = message::reactors(entries, emoji);
    let after = message::reacted(entries, who, state, emoji);
    if ordered::has_key(entries, emoji) {
        let i = ordered::key_index(entries, emoji);
        assert(entries[i].1 == current);
        assert(current.no_duplicates());
    }
    match state {
        ReactionState::Add => {
            ordered::insertion_is_found(entries, emoji, current.push(who));
            assert(current.push(who).no_duplicates());
        },
        ReactionState::Remove => {
            let rest = ids::without(current, who);
            if rest.len() == 0 {
                ordered::removed_key_is_gone(entries, emoji);
                assert forall|k: int| 0 <= k < after.len() implies (#[trigger] after[k]).1.len() > 0
                    && after[k].1.no_duplicates() by {
                    let i = ordered::key_index(entries, emoji);
                    let x = if k == i {
                        entries.len() - 1
                    } else {
                        k
                    };
                    assert(after[k] == entries[x]);
                }
            } else {
                ordered::insertion_is_found(entries, emoji, rest);
                lemma_without_no_duplicates(current, who);
            }
        },
    }
}

/// A reaction that is added can be taken back, and then the reactions are what they were.
pub proof fn reaction_and_retraction_cancel(
    entries: message::Reactions,
    who: Did,
    emoji: Seq<char>,
    max: usize,
)
    requires
        ordered::distinct_keys(entries),
        forall|i: int| 0 <= i < entries.len() ==> (#[trigger] entries[i]).1.len() > 0,
        message::reaction_refusal(entries, who, ReactionState::Add, emoji, max) is None,
    ensures
        message::reaction_refusal(
            message::reacted(entries, who, ReactionState::Add, emoji),
            who,
            ReactionState::Remove,
            emoji,
            max,
        ) is None,
        message::reacted(
            message::reacted(entries, who, ReactionState::Add, emoji),
            who,
            ReactionState::Remove,
            emoji,
        ) == entries,
{
    let current = message::reactors(entries, emoji);
    let added = message::reacted(entries, who, ReactionState::Add, emoji);
    let more = current.push(who);
    ordered::insertion_is_found(entries, emoji, more);
    assert(message::reactors(added, emoji) == more);
    assert(more[current.len() as int] == who);
    assert(more.contains(who));
    assert(ids::without(more, who) == current) by {
        reveal(Seq::filter);
        assert(more.drop_last() == current);
        ids::without_absent(current, who);
    }
    if ordered::has_key(entries, emoji) {
        let i = ordered::key_index(entries, emoji);
        assert(entries[i].0 == emoji && entries[i].1 == current);
        assert(current.len() > 0);
        assert(added.update(i, (emoji, current)) == entries);
    } else {
        assert(current.len() == 0);
        assert(added.update(entries.len() as int, added.last()).drop_last() == entries);
    }
}

/// A message that is sent can be read as it was written, and every other message as before.
pub proof fn sent_message_is_read(
    before: ConversationDocument,
    after: ConversationDocument,
    sent: Effects,
    own: Did,
    id: Uuid,
    date: Timestamp,
    lines: Vec<String>,
    limits: Limits,
    other: Uuid,
)
    requires
        chat::send_message_post(before, after, Ok(sent), own, id, date, lines, limits),
        other != id,
    ensures
        document::has_message(after.messages@, id),
        chat::is_fresh(
            after.messages@[document::message_index(after.messages@, id)],
            id,
            before.id,
            own,
            date,
            lines,
            None,
        ),
        document::has_message(after.messages@, other) == document::has_message(
            before.messages@,
            other,
        ),
        document::has_message(before.messages@, other) ==> after.messages@[
            document::message_index(after.messages@, other)
        ] == before.messages@[document::message_index(before.messages@, other)],
{
    let n = before.messages@.len() as int;
    assert(after.messages@[n].id == id);
    document::lemma_has_message_index(after.messages@, id);
    let i = document::message_index(after.messages@, id);
    if i < n {
        assert(before.messages@[i].id == id);
        assert(document::has_message(before.messages@, id));
    }
    if document::has_message(after.messages@, other) {
        document::lemma_has_message_index(after.messages@, other);
        let k = document::message_index(after.messages@, other);
        assert(before.messages@[k].id == other);
    }
    if document::has_message(before.messages@, other) {
        document::lemma_has_message_index(before.messages@, other);
        let b = document::message_index(before.messages@, other);
        assert(after.messages@[b].id == other);
        document::lemma_has_message_index(after.messages@, other);
        let k = document::message_index(after.messages@, other);
        if k < b {
            assert(before.messages@[k].id == other);
        } else if b < k {
            assert(after.messages@[b].id == other);
        }
    }
}

/// A message that is edited reads as it was edited, and is otherwise what it was.
pub proof fn edited_message_is_read(
    before: ConversationDocument,
    after: ConversationDocument,
    edited: Effects,
    own: Did,
    id: Uuid,
    lines: Vec<String>,
    now: Timestamp,
    limits: Limits,
)
    requires
        chat::edit_message_post(before, after, Ok(edited), own, id, lines, now, limits),
    ensures
        document::has_message(before.messages@, id),
        document::has_message(after.messages@, id),
        after.messages@[document::message_index(after.messages@, id)] == (Message {
            lines,
            modified: Some(now),
            ..before.messages@[document::message_index(before.messages@, id)]
        }),
{
    document::lemma_has_message_index(before.messages@, id);
    let i = document::message_index(before.messages@, id);
    assert(after.messages@[i].id == id);
    document::lemma_has_message_index(after.messages@, id);
    let k = document::message_index(after.messages@, id);
    if k < i {
        assert(before.messages@[k].id == id);
    } else if i < k {
        assert(after.messages@[i].id == id);
    }
}

/// What another member sends and is refused leaves the document as it was.
pub proof fn refused_event_changes_nothing(
    before: ConversationDocument,
    after: ConversationDocument,
    refusal: Error,
    own: Did,
    sender: Did,
    event: MessagingEvents,
    genuine: bool,
    keeper: Keeper,
    limits: Limits,
)
    requires
        incoming::message_event_post(
            before,
            after,
            Err(refusal),
            own,
            sender,
            event,
            genuine,
            keeper,
            limits,
        ),
    ensures
        after == before,
{
}

/// A message that another member sends and that is taken in is there as it was sent.
pub proof fn received_message_is_there(
    before: ConversationDocument,
    after: ConversationDocument,
    received: Effects,
    own: Did,
    sender: Did,
    message: Message,
    genuine: bool,
    keeper: Keeper,
    limits: Limits,
)
    requires
        incoming::message_event_post(
            before,
            after,
            Ok(received),
            own,
            sender,
            MessagingEvents::New { message },
            genuine,
            keeper,
            limits,
        ),
    ensures
        !document::has_message(before.messages@, message.id),
        document::has_message(after.messages@, message.id),
        after.messages@[document::message_index(after.messages@, message.id)] == message,
{
    let n = before.messages@.len() as int;
    assert(after.messages@[n] == message);
    document::lemma_has_message_index(after.messages@, message.id);
    let i = document::message_index(after.messages@, message.id);
    if i < n {
        assert(before.messages@[i].id == message.id);
    }
}

/// A message that is sent and then deleted leaves no trace in the document.
pub proof fn sending_and_deleting_cancel(
    first: ConversationDocument,
    second: ConversationDocument,
    third: ConversationDocument,
    sent: Effects,
    deleted: Result<Effects, Error>,
    own: Did,
    id: Uuid,
    date: Timestamp,
    lines: Vec<String>,
    limits: Limits,
    broadcast: bool,
)
    requires
        chat::send_message_post(first, second, Ok(sent), own, id, date, lines, limits),
        chat::delete_message_post(second, third, deleted, id, broadcast),
    ensures
        deleted is Ok,
        third.messages@ == first.messages@,
        third == (ConversationDocument { messages: third.messages, ..first }),
{
    let n = first.messages@.len() as int;
    assert(second.messages@[n].id == id);
    document::lemma_has_message_index(second.messages@, id);
    let i = document::message_index(second.messages@, id);
    if i < n {
        assert(first.messages@[i].id == id);
        assert(document::has_message(first.messages@, id));
    }
    assert(second.messages@.remove(n) == first.messages@);
}

/// A message that is pinned and then unpinned is what it was.
pub proof fn pinning_and_unpinning_cancel(
    first: ConversationDocument,
    second: ConversationDocument,
    third: ConversationDocument,
    pinned: Effects,
    unpinned: Result<Effects, Error>,
    own: Did,
    id: Uuid,
)
    requires
        first.well_formed(),
        document::has_message(first.messages@, id),
        !first.messages@[document::message_index(first.messages@, id)].pinned,
        chat::pin_message_post(first, second, Ok(pinned), own, id, PinState::Pin),
        chat::pin_message_post(second, third, unpinned, own, id, PinState::Unpin),
    ensures
        unpinned is Ok,
        third.messages@ == first.messages@,
        third == (ConversationDocument { messages: third.messages, ..first }),
{
    document::lemma_has_message_index(first.messages@, id);
    let i = document::message_index(first.messages@, id);
    assert(second.messages@[i].id == id);
    document::lemma_has_message_index(second.messages@, id);
    let k = document::message_index(second.messages@, id);
    assert(k == i) by {
        if k < i {
            assert(second.messages@[k] == first.messages@[k]);
        } else if k > i {
            assert(second.messages@[i].id == id);
        }
    }
    assert(third.messages@ == first.messages@);
}

/// Filing a conversation away and taking it back tells the subscribers of each, and leaves it as
/// it was.
pub proof fn archiving_and_unarchiving_cancel(
    first: ConversationDocument,
    second: ConversationDocument,
    third: ConversationDocument,
    archived: Option<RayGunEventKind>,
    unarchived: Option<RayGunEventKind>,
)
    requires
        !first.archived,
        info::archived_conversation_post(first, second, archived),
        info::unarchived_conversation_post(second, third, unarchived),
    ensures
        third == first,
        archived == Some(RayGunEventKind::ConversationArchived { conversation_id: first.id }),
        unarchived == Some(RayGunEventKind::ConversationUnarchived { conversation_id: first.id }),
{
}

/// A member that the creator takes in and out again leaves the members as they were.
pub proof fn taking_in_and_out_cancel(
    first: ConversationDocument,
    second: ConversationDocument,
    third: ConversationDocument,
    added: Effects,
    removed: Result<Effects, Error>,
    own: Did,
    did: Did,
    broadcast: bool,
)
    requires
        first.is_creator(own),
        members::add_participant_post(first, second, Ok(added), own, did, false),
        members::remove_participant_post(second, third, removed, own, did, broadcast),
    ensures
        removed is Ok,
        third.recipients@ == first.recipients@,
        third == (ConversationDocument { recipients: third.recipients, ..first }),
{
    let n = first.recipients@.len() as int;
    assert(second.recipients@[n] == did);
    reveal(Seq::filter);
    assert(second.recipients@.drop_last() == first.recipients@);
    ids::without_absent(first.recipients@, did);
}

/// Who is kept out of a group is not taken in.
pub proof fn restricted_stay_out(
    before: ConversationDocument,
    after: ConversationDocument,
    r: Result<Effects, Error>,
    own: Did,
    did: Did,
    blocked: bool,
)
    requires
        before.restrict@.contains(did),
        members::add_participant_post(before, after, r, own, did, blocked),
    ensures
        r is Err,
        after == before,
{
}

/// Who has left is no longer among those who are in the conversation.
pub proof fn left_members_are_absent(doc: ConversationDocument, did: Did)
    requires
        document::has_left(doc.excluded@, did),
    ensures
        !doc.spec_recipients().contains(did),
{
    lemma_left(doc.recipients@, doc.excluded@, did);
}

proof fn lemma_left(recipients: Seq<Did>, excluded: Seq<document::Exclusion>, did: Did)
    requires
        document::has_left(excluded, did),
    ensures
        !document::present(recipients, excluded).contains(did),
    decreases recipients.len(),
{
    reveal(Seq::filter);
    if recipients.len() > 0 {
        lemma_left(recipients.drop_last(), excluded, did);
        let kept = document::present(recipients, excluded);
        let rest = document::present(recipients.drop_last(), excluded);
        if kept.contains(did) {
            let i = choose|i: int| 0 <= i < kept.len() && kept[i] == did;
            if i < rest.len() {
                assert(rest[i] == did);
            }
        }
    }
}

/// What is published adds nothing to what waits for someone who is not in the conversation.
pub proof fn outsiders_get_nothing(
    before: queue::QueueView,
    recipients: Seq<Did>,
    own: Did,
    listening: Seq<Did>,
    item: queue::QueueItemView,
    did: Did,
)
    requires
        ordered::distinct_keys(before),
        !recipients.contains(did),
    ensures
        queue::waiting_for(queue::published(before, recipients, own, listening, item), did)
            == queue::waiting_for(before, did),
        ordered::distinct_keys(queue::published(before, recipients, own, listening, item)),
    decreases recipients.len(),
{
    if recipients.len() > 0 {
        let head = recipients.drop_last();
        assert(recipients[recipients.len() - 1] != did);
        assert(!head.contains(did)) by {
            if head.contains(did) {
                let i = choose|i: int| 0 <= i < head.len() && head[i] == did;
                assert(recipients[i] == did);
            }
        }
        outsiders_get_nothing(before, head, own, listening, item, did);
        let rest = queue::published(before, head, own, listening, item);
        let last = recipients.last();
        let sent = queue::QueueItemView { peer: last, ..item };
        ordered::insertion_is_found(rest, last, queue::waiting_for(rest, last).push(sent));
        ordered::insertion_leaves_others(rest, last, queue::waiting_for(rest, last).push(sent), did);
    }
}

/// What is published waits for every other member who does not listen.
pub proof fn absent_members_find_it_later(
    before: queue::QueueView,
    recipients: Seq<Did>,
    own: Did,
    listening: Seq<Did>,
    item: queue::QueueItemView,
    did: Did,
)
    requires
        ordered::distinct_keys(before),
        recipients.contains(did),
        did != own,
        !listening.contains(did),
    ensures
        queue::waiting_for(
            queue::published(before, recipients, own, listening, item),
            did,
        ).contains(queue::QueueItemView { peer: did, ..item }),
        ordered::distinct_keys(queue::published(before, recipients, own, listening, item)),
    decreases recipients.len(),
{
    let sent = queue::QueueItemView { peer: did, ..item };
    let head = recipients.drop_last();
    let last = recipients.last();
    let rest = queue::published(before, head, own, listening, item);
    let other = queue::QueueItemView { peer: last, ..item };
    let more = queue::waiting_for(rest, last).push(other);
    if head.contains(did) {
        absent_members_find_it_later(before, head, own, listening, item, did);
        if last != own && !listening.contains(last) {
            ordered::insertion_is_found(rest, last, more);
            if last == did {
                assert(more[more.len() - 1] == sent);
            } else {
                ordered::insertion_leaves_others(rest, last, more, did);
            }
        }
    } else {
        let i = choose|i: int| 0 <= i < recipients.len() && recipients[i] == did;
        if i < head.len() {
            assert(head[i] == did);
        }
        assert(last == did);
        outsiders_get_nothing(before, head, own, listening, item, did);
        ordered::insertion_is_found(rest, last, more);
        assert(more[more.len() - 1] == sent);
    }
}

/// A message that another member of a direct conversation has not got yet is shown as not sent.
pub proof fn undelivered_message_is_not_sent(
    before: queue::QueueView,
    recipients: Seq<Did>,
    own: Did,
    listening: Seq<Did>,
    item: queue::QueueItemView,
    message_id: Uuid,
    did: Did,
)
    requires
        ordered::distinct_keys(before),
        recipients.contains(did),
        did != own,
        !listening.contains(did),
        item.m_id == Some(message_id),
    ensures
        exchange::waits_for_any(
            queue::published(before, recipients, own, listening, item),
            ids::without(recipients, own),
            item.id,
            message_id,
        ),
{
    absent_members_find_it_later(before, recipients, own, listening, item, did);
    let after = queue::published(before, recipients, own, listening, item);
    let others = ids::without(recipients, own);
    ids::without_members(recipients, own, did);
    let k = choose|k: int| 0 <= k < others.len() && others[k] == did;
    let items = queue::waiting_for(after, did);
    let sent = queue::QueueItemView { peer: did, ..item };
    let j = choose|j: int| 0 <= j < items.len() && items[j] == sent;
    assert(items[j].id == item.id && items[j].m_id == Some(message_id));
    assert(exchange::waits_for(queue::waiting_for(after, others[k]), item.id, message_id));
}

/// After a sweep, everything that waits is unsent, and nobody is listed for whom nothing waits.
pub proof fn swept_queue_holds_what_is_unsent(before: queue::QueueView, i: int, j: int)
    requires
        0 <= i < queue::swept(before).len(),
        0 <= j < queue::swept(before)[i].1.len(),
    ensures
        !queue::swept(before)[i].1[j].sent,
        queue::swept(before)[i].1.len() > 0,
    decreases before.len(),
{
    let rest = queue::swept(before.drop_last());
    if i < rest.len() {
        assert(queue::swept(before)[i] == rest[i]);
        swept_queue_holds_what_is_unsent(before.drop_last(), i, j);
    } else {
        let items = before.last().1;
        lemma_unsent(items, j);
    }
}

proof fn lemma_unsent(items: Seq<queue::QueueItemView>, j: int)
    requires
        0 <= j < queue::unsent(items).len(),
    ensures
        !queue::unsent(items)[j].sent,
    decreases items.len(),
{
    reveal(Seq::filter);
    if items.len() > 0 {
        let rest = queue::unsent(items.drop_last());
        if j < rest.len() {
            lemma_unsent(items.drop_last(), j);
            assert(queue::unsent(items)[j] == rest[j]);
        }
    }
}

/// A payload that was set aside for want of a key is handed out once the key has come, and is set
/// aside no longer.
pub proof fn payload_is_read_when_its_key_comes(
    entries: Seq<(Did, (Seq<u8>, bool))>,
    sender: Did,
    data: Seq<u8>,
)
    requires
        ordered::distinct_keys(entries),
    ensures
        ({
            let aside = ordered::inserted(entries, sender, (data, false));
            let come = ordered::inserted(aside, sender, (data, true));
            &&& ordered::lookup(aside, sender) == Some((data, false))
            &&& task::arrived(come).contains((sender, data))
            &&& !ordered::has_key(task::still_waiting(come), sender)
        }),
{
    let aside = ordered::inserted(entries, sender, (data, false));
    let come = ordered::inserted(aside, sender, (data, true));
    ordered::insertion_is_found(entries, sender, (data, false));
    ordered::insertion_is_found(aside, sender, (data, true));
    let i = ordered::key_index(come, sender);
    assert(come[i] == (sender, (data, true)));
    lemma_arrived(come, i);
    lemma_not_waiting(come, sender);
}

proof fn lemma_arrived(entries: Seq<(Did, (Seq<u8>, bool))>, i: int)
    requires
        0 <= i < entries.len(),
        entries[i].1.1,
    ensures
        task::arrived(entries).contains((entries[i].0, entries[i].1.0)),
    decreases entries.len(),
{
    let all = task::arrived(entries);
    let rest = task::arrived(entries.drop_last());
    let wanted = (entries[i].0, entries[i].1.0);
    if i == entries.len() - 1 {
        assert(all[all.len() - 1] == wanted);
    } else {
        lemma_arrived(entries.drop_last(), i);
        let k = choose|k: int| 0 <= k < rest.len() && rest[k] == wanted;
        assert(all[k] == wanted);
    }
}

proof fn lemma_not_waiting(entries: Seq<(Did, (Seq<u8>, bool))>, sender: Did)
    requires
        forall|k: int|
            0 <= k < entries.len() && (#[trigger] entries[k]).0 == sender ==> entries[k].1.1,
    ensures
        !ordered::has_key(task::still_waiting(entries), sender),
    decreases entries.len(),
{
    reveal(Seq::filter);
    if entries.len() > 0 {
        let head = entries.drop_last();
        assert forall|k: int| 0 <= k < head.len() && (#[trigger] head[k]).0 == sender implies
            head[k].1.1 by {
            assert(entries[k].0 == sender);
        }
        lemma_not_waiting(head, sender);
        let rest = task::still_waiting(head);
        let all = task::still_waiting(entries);
        assert(entries[entries.len() - 1].0 == sender ==> entries.last().1.1);
        if ordered::has_key(all, sender) {
            let k = ordered::key_index(all, sender);
            assert(all[k].0 == sender);
            if k < rest.len() {
                assert(rest[k].0 == sender);
            }
        }
    }
}

/// A conversation that is deleted is no longer there, and no other is touched.
pub proof fn deleted_conversation_is_gone(
    before: ConversationInner,
    after: ConversationInner,
    r: Result<lifecycle::Deleted, Error>,
    id: Uuid,
    broadcast: bool,
    other: Uuid,
)
    requires
        before.well_formed(),
        lifecycle::delete_conversation_post(before, after, r, id, broadcast),
        r is Ok,
        other != id,
    ensures
        !store::has_conversation(after.conversations@, id),
        lifecycle::keystore_of(after.keystores@, id) is None,
        store::has_conversation(after.conversations@, other) == store::has_conversation(
            before.conversations@,
            other,
        ),
        store::has_conversation(before.conversations@, other) ==> exchange::document_of(
            after,
            other,
        ) == exchange::document_of(before, other),
{
    let all = before.conversations@;
    let rest = after.conversations@;
    store::lemma_has_conversation(all, id);
    let i = store::conversation_index(all, id);
    if store::has_conversation(rest, id) {
        let k = choose|k: int| 0 <= k < rest.len() && (#[trigger] rest[k]).id == id;
        let x = if k < i {
            k
        } else {
            k + 1
        };
        assert(rest[k] == all[x]);
        assert(all[x].id == all[i].id);
    }
    if store::has_conversation(rest, other) {
        let k = choose|k: int| 0 <= k < rest.len() && (#[trigger] rest[k]).id == other;
        let x = if k < i {
            k
        } else {
            k + 1
        };
        assert(all[x] == rest[k]);
        assert(store::has_conversation(all, other));
    }
    if store::has_conversation(all, other) {
        store::lemma_has_conversation(all, other);
        let k = store::conversation_index(all, other);
        let x = if k < i {
            k
        } else {
            k - 1
        };
        assert(rest[x] == all[k]);
        assert(store::has_conversation(rest, other));
        store::lemma_has_conversation(rest, other);
        let y = store::conversation_index(rest, other);
        let z = if y < i {
            y
        } else {
            y + 1
        };
        assert(all[z] == rest[y]);
        assert(all[z].id == all[k].id);
    }
}

/// A direct conversation that was begun is there, and a second one with the same identity is
/// refused.
pub proof fn direct_conversation_is_made_once(
    before: ConversationInner,
    after: ConversationInner,
    id: Uuid,
    other: Did,
)
    requires
        other != before.own,
        lifecycle::is_opened_direct(before, after, id, other),
    ensures
        store::has_conversation(after.conversations@, id),
        after.open@.contains(id),
        lifecycle::create_refusal(after, other, false) matches Some(
            Error::ConversationExist { .. },
        ),
{
    let doc = choose|doc: ConversationDocument|
        lifecycle::is_new_direct(doc, id, before.own, other) && after.conversations@
            == #[trigger] lifecycle::with_conversation(before.conversations@, doc);
    let all = after.conversations@;
    let k = if store::has_conversation(before.conversations@, id) {
        store::lemma_has_conversation(before.conversations@, id);
        store::conversation_index(before.conversations@, id)
    } else {
        before.conversations@.len() as int
    };
    assert(all[k] == doc);
    assert(all[k].id == id);
    reveal(Seq::filter);
    let pair = seq![before.own, other];
    assert(pair.drop_last() == seq![before.own]);
    assert(pair.drop_last().drop_last() == Seq::<Did>::empty());
    assert(document::present(pair.drop_last().drop_last(), doc.excluded@) == Seq::<Did>::empty());
    assert(document::present(pair.drop_last(), doc.excluded@) == seq![before.own]);
    assert(doc.spec_recipients() == pair);
    assert(pair[0] == before.own && pair[1] == other);
    assert(lifecycle::is_direct_with(doc, after.own, other));
    lemma_first_direct(all, after.own, other, k);
    if !before.open@.contains(id) {
        assert(after.open@[before.open@.len() as int] == id);
    }
}

proof fn lemma_first_direct(
    conversations: Seq<ConversationDocument>,
    own: Did,
    other: Did,
    k: int,
)
    requires
        0 <= k < conversations.len(),
        lifecycle::is_direct_with(conversations[k], own, other),
    ensures
        lifecycle::first_direct(conversations, own, other) is Some,
    decreases conversations.len(),
{
    if !lifecycle::is_direct_with(conversations[0], own, other) {
        assert(conversations.drop_first()[k - 1] == conversations[k]);
        lemma_first_direct(conversations.drop_first(), own, other, k - 1);
    }
}

/// The order of a mailbox is settled: there is only one with the newest first and those of one
/// moment as they came.
pub proof fn mailbox_order_is_settled(
    a: Seq<MailboxMessage>,
    b: Seq<MailboxMessage>,
    messages: Seq<MailboxMessage>,
)
    requires
        mailbox::is_sorted_of(a, messages),
        mailbox::is_sorted_of(b, messages),
    ensures
        a == b,
{
    assert forall|date: Timestamp| #[trigger] mailbox::of_date(a, date) == mailbox::of_date(
        b,
        date,
    ) by {
        assert(mailbox::of_date(a, date) == mailbox::of_date(messages, date));
        assert(mailbox::of_date(b, date) == mailbox::of_date(messages, date));
    }
    lemma_same_order(a, b);
}

proof fn lemma_last_of_date(a: Seq<MailboxMessage>)
    requires
        a.len() > 0,
    ensures
        mailbox::of_date(a, a.last().message.date) == mailbox::of_date(
            a.drop_last(),
            a.last().message.date,
        ).push(a.last()),
        forall|date: Timestamp|
            date != a.last().message.date ==> #[trigger] mailbox::of_date(a, date)
                == mailbox::of_date(a.drop_last(), date),
{
    reveal(Seq::filter);
}

/// Where a date occurs in a list, it occurs in it at some place.
proof fn lemma_date_occurs(a: Seq<MailboxMessage>, date: Timestamp)
    requires
        mailbox::of_date(a, date).len() > 0,
    ensures
        exists|i: int| 0 <= i < a.len() && (#[trigger] a[i]).message.date == date,
    decreases a.len(),
{
    reveal(Seq::filter);
    if a.len() > 0 {
        if a.last().message.date == date {
            assert(a[a.len() - 1].message.date == date);
        } else {
            lemma_date_occurs(a.drop_last(), date);
            let i = choose|i: int|
                0 <= i < a.drop_last().len() && (#[trigger] a.drop_last()[i]).message.date == date;
            assert(a[i].message.date == date);
        }
    }
}

proof fn lemma_same_order(a: Seq<MailboxMessage>, b: Seq<MailboxMessage>)
    requires
        mailbox::newest_first(a),
        mailbox::newest_first(b),
        forall|date: Timestamp| #[trigger] mailbox::of_date(a, date) == mailbox::of_date(b, date),
    ensures
        a == b,
    decreases a.len(),
{
    if a.len() == 0 {
        if b.len() > 0 {
            let date = b.last().message.date;
            lemma_last_of_date(b);
            assert(mailbox::of_date(a, date) == mailbox::of_date(b, date));
            reveal(Seq::filter);
        }
    } else {
        let date = a.last().message.date;
        lemma_last_of_date(a);
        assert(mailbox::of_date(a, date) == mailbox::of_date(b, date));
        lemma_date_occurs(b, date);
        let i = choose|i: int| 0 <= i < b.len() && (#[trigger] b[i]).message.date == date;
        let other = b.last().message.date;
        assert(b[i].message.date >= b[b.len() - 1].message.date);
        lemma_last_of_date(b);
        assert(mailbox::of_date(a, other) == mailbox::of_date(b, other));
        lemma_date_occurs(a, other);
        let k = choose|k: int| 0 <= k < a.len() && (#[trigger] a[k]).message.date == other;
        assert(a[k].message.date >= a[a.len() - 1].message.date);
        assert(date == other);
        let x = mailbox::of_date(a.drop_last(), date);
        let y = mailbox::of_date(b.drop_last(), date);
        assert(x.push(a.last()) == y.push(b.last()));
        assert(x.push(a.last()).last() == a.last());
        assert(y.push(b.last()).last() == b.last());
        assert(x.push(a.last()).drop_last() == x);
        assert(y.push(b.last()).drop_last() == y);
        assert forall|d: Timestamp| #[trigger] mailbox::of_date(a.drop_last(), d)
            == mailbox::of_date(b.drop_last(), d) by {
            assert(mailbox::of_date(a, d) == mailbox::of_date(b, d));
        }
        lemma_same_order(a.drop_last(), b.drop_last());
        assert(a == a.drop_last().push(a.last()));
        assert(b == b.drop_last().push(b.last()));
    }
}

/// No message of a mailbox occurs twice.
pub open spec fn distinct_incoming(incoming: Seq<MailboxMessage>) -> bool {
    forall|i: int, j: int|
        0 <= i < j < incoming.len() ==> (#[trigger] incoming[i]).message.id != (
        #[trigger] incoming[j]).message.id
}

/// Merging keeps messages distinct.
proof fn lemma_merged_distinct(existing: Seq<Message>, incoming: Seq<MailboxMessage>)
    requires
        document::distinct_messages(existing),
    ensures
        document::distinct_messages(mailbox::with_mailbox(existing, incoming)),
    decreases incoming.len(),
{
    if incoming.len() > 0 {
        lemma_merged_distinct(existing, incoming.drop_last());
        let rest = mailbox::with_mailbox(existing, incoming.drop_last());
        let after = mailbox::with_mailbox(existing, incoming);
        let x = incoming.last();
        if x.verified {
            if document::has_message(rest, x.message.id) {
                document::lemma_has_message_index(rest, x.message.id);
                assert forall|a: int, b: int| 0 <= a < b < after.len() implies (
                #[trigger] after[a]).id != (#[trigger] after[b]).id by {
                    assert(rest[a].id != rest[b].id);
                }
            } else {
                assert forall|a: int, b: int| 0 <= a < b < after.len() implies (
                #[trigger] after[a]).id != (#[trigger] after[b]).id by {
                    if b < rest.len() {
                        assert(rest[a].id != rest[b].id);
                    } else if rest[a].id == x.message.id {
                        assert(document::has_message(rest, x.message.id));
                    }
                }
            }
        }
    }
}

/// A good message of a mailbox is in the conversation after the mailbox was merged, as it came.
pub proof fn merged_message_is_there(
    existing: Seq<Message>,
    incoming: Seq<MailboxMessage>,
    k: int,
)
    requires
        document::distinct_messages(existing),
        distinct_incoming(incoming),
        0 <= k < incoming.len(),
        incoming[k].verified,
    ensures
        mailbox::with_mailbox(existing, incoming).contains(incoming[k].message),
    decreases incoming.len(),
{
    let head = incoming.drop_last();
    let rest = mailbox::with_mailbox(existing, head);
    let after = mailbox::with_mailbox(existing, incoming);
    let x = incoming.last();
    lemma_merged_distinct(existing, head);
    if k == incoming.len() - 1 {
        if document::has_message(rest, x.message.id) {
            document::lemma_has_message_index(rest, x.message.id);
            assert(after[document::message_index(rest, x.message.id)] == x.message);
        } else {
            assert(after[rest.len() as int] == x.message);
        }
    } else {
        assert(distinct_incoming(head)) by {
            assert forall|i: int, j: int| 0 <= i < j < head.len() implies (
            #[trigger] head[i]).message.id != (#[trigger] head[j]).message.id by {
                assert(incoming[i].message.id != incoming[j].message.id);
            }
        }
        assert(head[k] == incoming[k]);
        merged_message_is_there(existing, head, k);
        let m = incoming[k].message;
        let i = choose|i: int| 0 <= i < rest.len() && rest[i] == m;
        assert(m.id != x.message.id) by {
            assert(incoming[k].message.id != incoming[incoming.len() - 1].message.id);
        }
        if x.verified && document::has_message(rest, x.message.id) {
            document::lemma_has_message_index(rest, x.message.id);
        }
        assert(after[i] == m);
    }
}

/// Merging a mailbox once more changes nothing.
pub proof fn merging_twice_is_merging_once(
    existing: Seq<Message>,
    incoming: Seq<MailboxMessage>,
)
    requires
        document::distinct_messages(existing),
        distinct_incoming(incoming),
    ensures
        mailbox::with_mailbox(mailbox::with_mailbox(existing, incoming), incoming)
            == mailbox::with_mailbox(existing, incoming),
{
    lemma_merged_again(existing, incoming, incoming.len() as int);
    assert(incoming.take(incoming.len() as int) == incoming);
}

proof fn lemma_merged_again(existing: Seq<Message>, incoming: Seq<MailboxMessage>, k: int)
    requires
        document::distinct_messages(existing),
        distinct_incoming(incoming),
        0 <= k <= incoming.len(),
    ensures
        mailbox::with_mailbox(mailbox::with_mailbox(existing, incoming), incoming.take(k))
            == mailbox::with_mailbox(existing, incoming),
    decreases k,
{
    let all = mailbox::with_mailbox(existing, incoming);
    if k == 0 {
        assert(incoming.take(0) == Seq::<MailboxMessage>::empty());
    } else {
        lemma_merged_again(existing, incoming, k - 1);
        assert(incoming.take(k).drop_last() == incoming.take(k - 1));
        let x = incoming[k - 1];
        assert(incoming.take(k).last() == x);
        if x.verified {
            lemma_merged_distinct(existing, incoming);
            merged_message_is_there(existing, incoming, k - 1);
            let i = choose|i: int| 0 <= i < all.len() && all[i] == x.message;
            assert(all[i].id == x.message.id);
            document::lemma_has_message_index(all, x.message.id);
            let j = document::message_index(all, x.message.id);
            assert(j == i) by {
                if j != i {
                    assert(all[i].id == all[j].id);
                }
            }
            assert(all.update(j, x.message) == all);
        }
    }
}

/// Where it is in the lists of the store, a payload is handed out once its key has come.
pub proof fn stored_payload_is_read_when_its_key_comes(
    inner: ConversationInner,
    lists: Seq<(Uuid, Seq<(Did, (Seq<u8>, bool))>)>,
    id: Uuid,
    sender: Did,
    data: Seq<u8>,
)
    requires
        exchange::keystore_refusal(inner, id) is None,
    ensures
        exchange::readable(
            inner,
            exchange::received(
                exchange::set_aside(lists, id, (sender, (data, false))),
                id,
                sender,
            ),
        ).contains((id, (sender, data))),
{
    let payload = (sender, (data, false));
    let aside = exchange::set_aside(lists, id, payload);
    lemma_set_aside(lists, id, payload);
    let i = choose|i: int|
        0 <= i < aside.len() && (#[trigger] aside[i]).0 == id && aside[i].1.contains(payload);
    let come = exchange::received(aside, id, sender);
    let k = choose|k: int| 0 <= k < aside[i].1.len() && aside[i].1[k] == payload;
    assert(come[i].0 == id);
    assert(come[i].1[k] == (sender, (data, true)));
    lemma_readable(inner, come, i, k);
}

proof fn lemma_set_aside(
    lists: Seq<(Uuid, Seq<(Did, (Seq<u8>, bool))>)>,
    id: Uuid,
    payload: (Did, (Seq<u8>, bool)),
)
    ensures
        exists|i: int|
            0 <= i < exchange::set_aside(lists, id, payload).len() && (
            #[trigger] exchange::set_aside(lists, id, payload)[i]).0 == id && exchange::set_aside(
                lists,
                id,
                payload,
            )[i].1.contains(payload),
    decreases lists.len(),
{
    let aside = exchange::set_aside(lists, id, payload);
    if lists.len() == 0 {
        assert(aside[0].1[0] == payload);
        assert(aside[0].0 == id);
    } else if lists[0].0 == id {
        let n = lists[0].1.len() as int;
        assert(aside[0].1[n] == payload);
        assert(aside[0].0 == id);
    } else {
        lemma_set_aside(lists.drop_first(), id, payload);
        let rest = exchange::set_aside(lists.drop_first(), id, payload);
        let i = choose|i: int|
            0 <= i < rest.len() && (#[trigger] rest[i]).0 == id && rest[i].1.contains(payload);
        assert(aside[i + 1] == rest[i]);
    }
}

proof fn lemma_readable(
    inner: ConversationInner,
    lists: Seq<(Uuid, Seq<(Did, (Seq<u8>, bool))>)>,
    i: int,
    k: int,
)
    requires
        0 <= i < lists.len(),
        0 <= k < lists[i].1.len(),
        lists[i].1[k].1.1,
        exchange::keystore_refusal(inner, lists[i].0) is None,
    ensures
        exchange::readable(inner, lists).contains(
            (lists[i].0, (lists[i].1[k].0, lists[i].1[k].1.0)),
        ),
    decreases lists.len(),
{
    let all = exchange::readable(inner, lists);
    let rest = exchange::readable(inner, lists.drop_last());
    let wanted = (lists[i].0, (lists[i].1[k].0, lists[i].1[k].1.0));
    if i == lists.len() - 1 {
        lemma_arrived(lists[i].1, k);
        let come = task::arrived(lists[i].1);
        let j = choose|j: int| 0 <= j < come.len() && come[j] == wanted.1;
        assert(all[rest.len() + j] == wanted);
    } else {
        lemma_readable(inner, lists.drop_last(), i, k);
        let j = choose|j: int| 0 <= j < rest.len() && rest[j] == wanted;
        assert(all[j] == wanted);
    }
}

} // verus!
