//! What holds of the events that other members send, said of the documents before and after.
use vstd::prelude::*;
use indexmap::IndexMap;
use crate::error::{Error, LengthOf, Reason};
use crate::ids::{self, Did, Timestamp, Uuid};
use crate::ordered;
use crate::text;
use super::document::{self, ConversationDocument};
use super::incoming::{self, ConversationUpdateKind, Keeper, MessagingEvents};
use super::members;
use super::message::{self, Message};
use super::{
    Effects, Grant, GroupPermission, Limits, MessageEvent, MessageEventKind, PinState,
    ReactionState,
};

verus! {

/// Those present in a conversation are its members who have not left, and nobody else.
pub proof fn present_are_members_who_stayed(doc: ConversationDocument, did: Did)
    ensures
        doc.spec_recipients().contains(did) <==> (exists|i: int|
            0 <= i < doc.recipients@.len() && #[trigger] doc.recipients@[i] == did) && (forall|j: int|
            0 <= j < doc.excluded@.len() ==> (#[trigger] doc.excluded@[j]).did != did),
        doc.excluded@.len() == 0 ==> doc.spec_recipients() == doc.recipients@,
{
    lemma_filtered(doc.recipients@, |d: Did| !document::has_left(doc.excluded@, d), did);
    if doc.excluded@.len() == 0 {
        lemma_all_kept(doc.recipients@, |d: Did| !document::has_left(doc.excluded@, d));
    }
}

proof fn lemma_filtered(list: Seq<Did>, keep: spec_fn(Did) -> bool, did: Did)
    ensures
        list.filter(keep).contains(did) <==> list.contains(did) && keep(did),
    decreases list.len(),
{
    reveal(Seq::filter);
    if list.len() > 0 {
        let head = list.drop_last();
        lemma_filtered(head, keep, did);
        assert(list == head.push(list.last()));
        if head.contains(did) {
            let i = choose|i: int| 0 <= i < head.len() && head[i] == did;
            assert(list[i] == did);
        }
        if list.contains(did) && list.last() != did {
            let i = choose|i: int| 0 <= i < list.len() && list[i] == did;
            assert(head[i] == did);
        }
        let kept = head.filter(keep);
        if keep(list.last()) {
            assert(list.filter(keep) == kept.push(list.last()));
            if kept.contains(did) {
                let i = choose|i: int| 0 <= i < kept.len() && kept[i] == did;
                assert(kept.push(list.last())[i] == did);
            }
            assert(kept.push(list.last())[kept.len() as int] == list.last());
            if list.filter(keep).contains(did) && did != list.last() {
                let i = choose|i: int|
                    0 <= i < list.filter(keep).len() && list.filter(keep)[i] == did;
                assert(kept[i] == did);
            }
            if did == list.last() {
                assert(list[list.len() - 1] == did);
            }
        } else {
            if did == list.last() {
                assert(!keep(did));
            }
        }
    }
}

proof fn lemma_all_kept(list: Seq<Did>, keep: spec_fn(Did) -> bool)
    requires
        forall|d: Did| #[trigger] keep(d),
    ensures
        list.filter(keep) == list,
    decreases list.len(),
{
    reveal(Seq::filter);
    if list.len() > 0 {
        lemma_all_kept(list.drop_last(), keep);
        assert(list == list.drop_last().push(list.last()));
    }
}

/// A member has exactly the permissions that stand beside it.
pub proof fn permission_is_what_was_granted(
    doc: ConversationDocument,
    i: int,
    did: Did,
    permission: GroupPermission,
)
    requires
        ordered::distinct_keys(ordered::permission_entries(doc.permissions)),
    ensures
        0 <= i < ordered::permission_entries(doc.permissions).len()
            && ordered::permission_entries(doc.permissions)[i].0 == did ==> doc.permits(
            did,
            permission,
        ) == ordered::permission_entries(doc.permissions)[i].1.contains(permission),
        (forall|j: int|
            0 <= j < ordered::permission_entries(doc.permissions).len() ==> (
            #[trigger] ordered::permission_entries(doc.permissions)[j]).0 != did) ==> !doc.permits(
            did,
            permission,
        ),
{
    let entries = ordered::permission_entries(doc.permissions);
    if 0 <= i < entries.len() && entries[i].0 == did {
        ordered::lemma_key_index(entries, did, i);
    }
}

/// A group can always be written in, and a direct conversation where someone else is present, whose
/// key it takes: the first who is.
pub proof fn conversation_has_a_key(doc: ConversationDocument, own: Did)
    ensures
        doc.conversation_type is Group ==> doc.key_refusal(own) is None,
        doc.conversation_type is Direct ==> (doc.key_refusal(own) is None <==> exists|i: int|
            0 <= i < doc.spec_recipients().len() && #[trigger] doc.spec_recipients()[i] != own),
        doc.key_refusal(own) matches Some(e) ==> e == Error::InvalidConversation,
        doc.counterpart(own) matches Some(other) ==> other != own && exists|i: int|
            0 <= i < doc.spec_recipients().len() && #[trigger] doc.spec_recipients()[i] == other
                && forall|j: int| 0 <= j < i ==> doc.spec_recipients()[j] == own,
{
    lemma_first_other(doc.spec_recipients(), own);
}

proof fn lemma_first_other(list: Seq<Did>, own: Did)
    ensures
        document::first_other(list, own) is Some <==> exists|i: int|
            0 <= i < list.len() && #[trigger] list[i] != own,
        document::first_other(list, own) matches Some(other) ==> other != own && exists|i: int|
            0 <= i < list.len() && #[trigger] list[i] == other && forall|j: int|
                0 <= j < i ==> list[j] == own,
    decreases list.len(),
{
    if list.len() > 0 {
        let rest = list.drop_first();
        if list[0] == own {
            lemma_first_other(rest, own);
            if document::first_other(rest, own) is Some {
                let other = document::first_other(rest, own)->Some_0;
                let i = choose|i: int|
                    0 <= i < rest.len() && #[trigger] rest[i] == other && forall|j: int|
                        0 <= j < i ==> rest[j] == own;
                assert(list[i + 1] == other);
                assert forall|j: int| 0 <= j < i + 1 implies list[j] == own by {
                    if j > 0 {
                        assert(rest[j - 1] == own);
                    }
                }
            }
            if exists|i: int| 0 <= i < list.len() && #[trigger] list[i] != own {
                let i = choose|i: int| 0 <= i < list.len() && #[trigger] list[i] != own;
                assert(rest[i - 1] != own);
            }
        } else {
            assert(list[0] != own);
        }
    }
}

/// A new message is taken in where it is genuine, meant for the conversation, sent by someone who is
/// present, and not there yet. It then comes last, and nothing else changes.
pub proof fn new_message_is_taken_in(
    before: ConversationDocument,
    after: ConversationDocument,
    r: Result<Effects, Error>,
    own: Did,
    sender: Did,
    message: Message,
    genuine: bool,
    keeper: Keeper,
    limits: Limits,
)
    requires
        incoming::message_event_post(
            before,
            after,
            r,
            own,
            sender,
            MessagingEvents::New { message },
            genuine,
            keeper,
            limits,
        ),
        before.key_refusal(own) is None,
    ensures
        r is Ok <==> genuine && message.conversation_id == before.id
            && before.spec_recipients().contains(message.sender) && forall|i: int|
            0 <= i < before.messages@.len() ==> (#[trigger] before.messages@[i]).id != message.id,
        r is Err ==> after == before,
        r matches Ok(effects) ==> {
            &&& after.messages@ == before.messages@.push(message)
            &&& after == (ConversationDocument { messages: after.messages, ..before })
            &&& only_saves(effects)
            &&& asks_nobody(effects)
            &&& effects.event == Some(
                MessageEventKind::MessageReceived {
                    conversation_id: before.id,
                    message_id: message.id,
                },
            )
        },
        !genuine ==> r == Err::<Effects, Error>(Error::InvalidMessage),
        genuine && message.conversation_id != before.id ==> r == Err::<Effects, Error>(
            Error::InvalidConversation,
        ),
        genuine && message.conversation_id == before.id && !before.spec_recipients().contains(
            message.sender,
        ) ==> r == Err::<Effects, Error>(Error::IdentityDoesntExist),
        genuine && message.conversation_id == before.id && before.spec_recipients().contains(
            message.sender,
        ) && r is Err ==> r == Err::<Effects, Error>(Error::MessageFound),
{
}

/// A message stays the only one of its identifier at its place.
pub(crate) proof fn lemma_place(messages: Seq<Message>, i: int, id: Uuid)
    requires
        document::distinct_messages(messages),
        0 <= i < messages.len(),
        messages[i].id == id,
    ensures
        document::has_message(messages, id),
        document::message_index(messages, id) == i,
{
    document::lemma_has_message_index(messages, id);
    let k = document::message_index(messages, id);
    if k != i {
        assert(messages[k].id == messages[i].id);
    }
}

/// All messages but the one at a place are as before, and so is the rest of the document.
pub open spec fn only_message_changed(
    before: ConversationDocument,
    after: ConversationDocument,
    i: int,
) -> bool {
    &&& after == (ConversationDocument { messages: after.messages, ..before })
    &&& after.messages@.len() == before.messages@.len()
    &&& forall|j: int|
        0 <= j < before.messages@.len() && j != i ==> #[trigger] after.messages@[j]
            == before.messages@[j]
}

/// An edit that comes in gives the message its new lines and the time of the edit, and leaves all
/// else as it was.
pub proof fn received_edit_changes_the_lines(
    before: ConversationDocument,
    after: ConversationDocument,
    r: Result<Effects, Error>,
    own: Did,
    sender: Did,
    i: int,
    conversation_id: Uuid,
    message_id: Uuid,
    modified: Timestamp,
    lines: Vec<String>,
    genuine: bool,
    keeper: Keeper,
    limits: Limits,
)
    requires
        incoming::message_event_post(
            before,
            after,
            r,
            own,
            sender,
            MessagingEvents::Edit { conversation_id, message_id, modified, lines },
            genuine,
            keeper,
            limits,
        ),
        before.key_refusal(own) is None,
        document::distinct_messages(before.messages@),
        0 <= i < before.messages@.len(),
        before.messages@[i].id == message_id,
    ensures
        r matches Ok(effects) && only_saves(effects) && asks_nobody(effects) && effects.event == Some(
            MessageEventKind::MessageEdited { conversation_id, message_id },
        ),
        only_message_changed(before, after, i),
        after.messages@[i].lines == lines,
        after.messages@[i].modified == Some(modified),
        after.messages@[i].id == message_id,
        after.messages@[i].sender == before.messages@[i].sender,
        after.messages@[i].date == before.messages@[i].date,
        after.messages@[i].replied == before.messages@[i].replied,
        after.messages@[i].pinned == before.messages@[i].pinned,
        after.messages@[i].reactions == before.messages@[i].reactions,
        after.messages@[i].attachments == before.messages@[i].attachments,
{
    lemma_place(before.messages@, i, message_id);
}

/// A deletion that comes in takes the message out, and leaves the others in their order.
pub proof fn received_deletion_takes_the_message_out(
    before: ConversationDocument,
    after: ConversationDocument,
    r: Result<Effects, Error>,
    own: Did,
    sender: Did,
    i: int,
    conversation_id: Uuid,
    message_id: Uuid,
    genuine: bool,
    keeper: Keeper,
    limits: Limits,
)
    requires
        incoming::message_event_post(
            before,
            after,
            r,
            own,
            sender,
            MessagingEvents::Delete { conversation_id, message_id },
            genuine,
            keeper,
            limits,
        ),
        before.key_refusal(own) is None,
        document::distinct_messages(before.messages@),
        0 <= i < before.messages@.len(),
        before.messages@[i].id == message_id,
    ensures
        r matches Ok(effects) && only_saves(effects) && asks_nobody(effects) && effects.event == Some(
            MessageEventKind::MessageDeleted { conversation_id, message_id },
        ),
        after.messages@ == before.messages@.take(i) + before.messages@.skip(i + 1),
        after == (ConversationDocument { messages: after.messages, ..before }),
        forall|j: int|
            0 <= j < after.messages@.len() ==> (#[trigger] after.messages@[j]).id != message_id,
{
    lemma_place(before.messages@, i, message_id);
    assert(before.messages@.remove(i) == before.messages@.take(i) + before.messages@.skip(i + 1));
    assert forall|j: int| 0 <= j < after.messages@.len() implies (
    #[trigger] after.messages@[j]).id != message_id by {
        let k = if j < i { j } else { j + 1 };
        assert(after.messages@[j] == before.messages@[k]);
        assert(before.messages@[k].id != before.messages@[i].id);
    }
}

/// A pin that comes in leaves the message pinned, and an unpin unpinned. What is so already is not
/// told again.
pub proof fn received_pin_is_kept(
    before: ConversationDocument,
    after: ConversationDocument,
    r: Result<Effects, Error>,
    own: Did,
    sender: Did,
    i: int,
    conversation_id: Uuid,
    member: Did,
    message_id: Uuid,
    state: PinState,
    genuine: bool,
    keeper: Keeper,
    limits: Limits,
)
    requires
        incoming::message_event_post(
            before,
            after,
            r,
            own,
            sender,
            MessagingEvents::Pin { conversation_id, member, message_id, state },
            genuine,
            keeper,
            limits,
        ),
        before.key_refusal(own) is None,
        document::distinct_messages(before.messages@),
        0 <= i < before.messages@.len(),
        before.messages@[i].id == message_id,
    ensures
        r is Ok,
        only_message_changed(before, after, i),
        after.messages@[i].pinned == (state is Pin),
        after.messages@[i] == (Message { pinned: state is Pin, ..before.messages@[i] }),
        before.messages@[i].pinned != (state is Pin) ==> only_saves(r->Ok_0) && asks_nobody(
            r->Ok_0,
        ),
        before.messages@[i].pinned == (state is Pin) ==> does_nothing(r->Ok_0),
        before.messages@[i].pinned && state is Unpin ==> r->Ok_0.event == Some(
            MessageEventKind::MessageUnpinned { conversation_id, message_id },
        ),
        !before.messages@[i].pinned && state is Pin ==> r->Ok_0.event == Some(
            MessageEventKind::MessagePinned { conversation_id, message_id },
        ),
{
    lemma_place(before.messages@, i, message_id);
}

/// An edit, a deletion, a pin or a reaction to a message that is not there is refused, and changes
/// nothing.
pub proof fn unknown_message_is_not_changed(
    before: ConversationDocument,
    after: ConversationDocument,
    r: Result<Effects, Error>,
    own: Did,
    sender: Did,
    event: MessagingEvents,
    message_id: Uuid,
    genuine: bool,
    keeper: Keeper,
    limits: Limits,
)
    requires
        incoming::message_event_post(
            before,
            after,
            r,
            own,
            sender,
            event,
            genuine,
            keeper,
            limits,
        ),
        before.key_refusal(own) is None,
        event matches MessagingEvents::Edit { message_id: m, .. } ==> m == message_id,
        event matches MessagingEvents::Delete { message_id: m, .. } ==> m == message_id,
        event matches MessagingEvents::Pin { message_id: m, .. } ==> m == message_id,
        event matches MessagingEvents::React { message_id: m, .. } ==> m == message_id,
        event is Edit || event is Delete || event is Pin || event is React,
        forall|i: int|
            0 <= i < before.messages@.len() ==> (#[trigger] before.messages@[i]).id != message_id,
    ensures
        r == Err::<Effects, Error>(Error::MessageNotFound),
        after == before,
{
}

/// A reaction that comes in changes the holders of that reaction to that message by the one who
/// reacts, and nothing else.
pub proof fn received_reaction_is_kept(
    before: ConversationDocument,
    after: ConversationDocument,
    r: Result<Effects, Error>,
    own: Did,
    sender: Did,
    i: int,
    conversation_id: Uuid,
    reactor: Did,
    message_id: Uuid,
    state: ReactionState,
    emoji: String,
    genuine: bool,
    keeper: Keeper,
    limits: Limits,
)
    requires
        incoming::message_event_post(
            before,
            after,
            r,
            own,
            sender,
            MessagingEvents::React { conversation_id, reactor, message_id, state, emoji },
            genuine,
            keeper,
            limits,
        ),
        before.key_refusal(own) is None,
        document::distinct_messages(before.messages@),
        ordered::distinct_keys(ordered::reaction_entries(before.messages@[i].reactions)),
        0 <= i < before.messages@.len(),
        before.messages@[i].id == message_id,
    ensures
        ({
            let held = message::reactors(
                ordered::reaction_entries(before.messages@[i].reactions),
                emoji@,
            );
            let kinds = ordered::reaction_entries(before.messages@[i].reactions).len();
            r is Ok <==> match state {
                ReactionState::Add => kinds < limits.max_reactions && !held.contains(reactor),
                ReactionState::Remove => held.contains(reactor),
            }
        }),
        r is Err ==> after == before,
        r matches Ok(effects) ==> {
            let held = message::reactors(
                ordered::reaction_entries(before.messages@[i].reactions),
                emoji@,
            );
            let holds = message::reactors(
                ordered::reaction_entries(after.messages@[i].reactions),
                emoji@,
            );
            &&& only_saves(effects)
            &&& asks_nobody(effects)
            &&& only_message_changed(before, after, i)
            &&& after.messages@[i] == (Message {
                reactions: after.messages@[i].reactions,
                ..before.messages@[i]
            })
            &&& match state {
                ReactionState::Add => holds == held.push(reactor) && effects.event == Some(
                    MessageEventKind::MessageReactionAdded {
                        conversation_id,
                        message_id,
                        did_key: reactor,
                        reaction: emoji,
                    },
                ),
                ReactionState::Remove => holds == ids::without(held, reactor)
                    && effects.event == Some(
                    MessageEventKind::MessageReactionRemoved {
                        conversation_id,
                        message_id,
                        did_key: reactor,
                        reaction: emoji,
                    },
                ),
            }
        },
{
    lemma_place(before.messages@, i, message_id);
    let entries = ordered::reaction_entries(before.messages@[i].reactions);
    super::reactions::holders_change_by_one(entries, reactor, state, emoji@);
}

/// The document takes what a received conversation says of itself, and keeps what only the own copy
/// knows: the messages, and where the conversation is filed.
pub open spec fn takes_over(
    before: ConversationDocument,
    after: ConversationDocument,
    received: ConversationDocument,
) -> bool {
    &&& after.id == received.id
    &&& after.name == received.name
    &&& after.description == received.description
    &&& after.creator == received.creator
    &&& after.conversation_type == received.conversation_type
    &&& after.deleted == received.deleted
    &&& after.icon == received.icon
    &&& after.banner == received.banner
    &&& after.recipients == received.recipients
    &&& after.restrict == received.restrict
    &&& after.messages == before.messages
    &&& after.favorite == before.favorite
    &&& after.archived == before.archived
}

/// Only the document is stored and the subscribers are told; nobody else is.
pub open spec fn only_saves(effects: Effects) -> bool {
    &&& effects.save
    &&& effects.mailbox is None
    &&& effects.publish is None
    &&& effects.direct is None
    &&& effects.ping is None
}

/// Nobody is asked for a key, or looked for.
pub open spec fn asks_nobody(effects: Effects) -> bool {
    &&& effects.request_key is None
    &&& effects.discover is None
}

/// Nothing is left to do.
pub open spec fn does_nothing(effects: Effects) -> bool {
    &&& !effects.save
    &&& effects.event is None
    &&& effects.mailbox is None
    &&& effects.publish is None
    &&& effects.direct is None
    &&& effects.ping is None
    &&& asks_nobody(effects)
}

/// An update whose conversation is not signed as it has to be is refused.
pub proof fn forged_update_is_refused(
    before: ConversationDocument,
    after: ConversationDocument,
    r: Result<Effects, Error>,
    own: Did,
    sender: Did,
    conversation: ConversationDocument,
    kind: ConversationUpdateKind,
    keeper: Keeper,
    limits: Limits,
)
    requires
        incoming::message_event_post(
            before,
            after,
            r,
            own,
            sender,
            MessagingEvents::UpdateConversation { conversation, kind },
            false,
            keeper,
            limits,
        ),
        before.key_refusal(own) is None,
    ensures
        r == Err::<Effects, Error>(Error::OtherWithContext(Reason::InvalidSignature)),
        after == before,
{
}

/// A participant whom the creator, or a member with the permission, adds comes in with the received
/// conversation, unless it is in already. It is asked for its key then.
pub proof fn added_participant_comes_in(
    before: ConversationDocument,
    after: ConversationDocument,
    r: Result<Effects, Error>,
    own: Did,
    sender: Did,
    conversation: ConversationDocument,
    did: Did,
    keeper: Keeper,
    limits: Limits,
)
    requires
        incoming::message_event_post(
            before,
            after,
            r,
            own,
            sender,
            MessagingEvents::UpdateConversation {
                conversation,
                kind: ConversationUpdateKind::AddParticipant { did },
            },
            true,
            keeper,
            limits,
        ),
        before.key_refusal(own) is None,
    ensures
        r is Ok <==> before.creator == Some(sender) || before.permits(
            sender,
            GroupPermission::AddParticipants,
        ),
        r is Err ==> r == Err::<Effects, Error>(Error::Unauthorized) && after == before,
        r matches Ok(effects) ==> if before.recipients@.contains(did) {
            after == before && does_nothing(effects)
        } else {
            &&& takes_over(before, after, conversation)
            &&& after.excluded == before.excluded
            &&& after.permissions == conversation.permissions
            &&& only_saves(effects)
            &&& effects.request_key == Some(did)
            &&& effects.discover == Some(did)
            &&& effects.event == Some(
                MessageEventKind::RecipientAdded { conversation_id: before.id, recipient: did },
            )
        },
{
}

/// A participant whom the creator takes out goes out with the received conversation. The subscribers
/// are told, unless the participant had left itself.
pub proof fn removed_participant_goes_out(
    before: ConversationDocument,
    after: ConversationDocument,
    r: Result<Effects, Error>,
    own: Did,
    sender: Did,
    conversation: ConversationDocument,
    did: Did,
    keeper: Keeper,
    limits: Limits,
)
    requires
        incoming::message_event_post(
            before,
            after,
            r,
            own,
            sender,
            MessagingEvents::UpdateConversation {
                conversation,
                kind: ConversationUpdateKind::RemoveParticipant { did },
            },
            true,
            keeper,
            limits,
        ),
        before.key_refusal(own) is None,
    ensures
        r is Ok <==> before.creator == Some(sender) && before.recipients@.contains(did),
        r is Err ==> after == before,
        before.creator != Some(sender) ==> r == Err::<Effects, Error>(Error::Unauthorized),
        before.creator == Some(sender) && r is Err ==> r == Err::<Effects, Error>(
            Error::IdentityDoesntExist,
        ),
        r matches Ok(effects) ==> {
            &&& takes_over(before, after, conversation)
            &&& after.recipients@ == conversation.recipients@
            &&& !conversation.recipients@.contains(did) ==> !after.recipients@.contains(did)
            &&& after.permissions == conversation.permissions
            &&& only_saves(effects)
            &&& asks_nobody(effects)
            &&& (exists|j: int|
                0 <= j < before.excluded@.len() && (#[trigger] before.excluded@[j]).did == did)
                ==> effects.event is None
            &&& (forall|j: int|
                0 <= j < before.excluded@.len() ==> (#[trigger] before.excluded@[j]).did != did)
                ==> effects.event == Some(
                MessageEventKind::RecipientRemoved { conversation_id: before.id, recipient: did },
            )
            &&& keeper is Task ==> after.excluded == before.excluded
            &&& keeper is Store ==> forall|j: int|
                0 <= j < after.excluded@.len() ==> (#[trigger] after.excluded@[j]).did != did
            &&& keeper is Store ==> forall|j: int|
                0 <= j < before.excluded@.len() && (#[trigger] before.excluded@[j]).did != did
                    ==> after.excluded@.contains(before.excluded@[j])
        },
{
}

/// A name that the creator, or a member with the permission, gives is taken over with the received
/// conversation, unless it is too long or the name already.
pub proof fn given_name_is_taken_over(
    before: ConversationDocument,
    after: ConversationDocument,
    r: Result<Effects, Error>,
    own: Did,
    sender: Did,
    conversation: ConversationDocument,
    name: Option<String>,
    keeper: Keeper,
    limits: Limits,
)
    requires
        incoming::message_event_post(
            before,
            after,
            r,
            own,
            sender,
            MessagingEvents::UpdateConversation {
                conversation,
                kind: ConversationUpdateKind::ChangeName { name },
            },
            true,
            keeper,
            limits,
        ),
        before.key_refusal(own) is None,
    ensures
        r is Ok <==> (before.creator == Some(sender) || before.permits(
            sender,
            GroupPermission::SetGroupName,
        )) && (name matches Some(n) ==> text::byte_length(text::trimmed(n@)) <= 255),
        r is Err ==> after == before,
        before.creator != Some(sender) && !before.permits(sender, GroupPermission::SetGroupName)
            ==> r == Err::<Effects, Error>(Error::Unauthorized),
        r matches Ok(effects) ==> if name is Some && before.name is Some
            && before.name->Some_0@ == text::trimmed(name->Some_0@) {
            after == before && does_nothing(effects)
        } else {
            &&& takes_over(before, after, conversation)
            &&& after.excluded == before.excluded
            &&& after.permissions == conversation.permissions
            &&& only_saves(effects)
            &&& asks_nobody(effects)
            &&& effects.event matches Some(
                MessageEventKind::ConversationNameUpdated { conversation_id, name: shown },
            )
            &&& conversation_id == before.id
            &&& name matches Some(n) ==> shown@ == text::trimmed(n@)
            &&& name is None ==> shown@.len() == 0
        },
{
}

/// A description that comes in is taken over with the received conversation, unless its length does
/// not do or it is the description already.
pub proof fn given_description_is_taken_over(
    before: ConversationDocument,
    after: ConversationDocument,
    r: Result<Effects, Error>,
    own: Did,
    sender: Did,
    conversation: ConversationDocument,
    description: Option<String>,
    keeper: Keeper,
    limits: Limits,
)
    requires
        incoming::message_event_post(
            before,
            after,
            r,
            own,
            sender,
            MessagingEvents::UpdateConversation {
                conversation,
                kind: ConversationUpdateKind::ChangeDescription { description },
            },
            true,
            keeper,
            limits,
        ),
        before.key_refusal(own) is None,
    ensures
        r is Ok <==> (description matches Some(d) ==> d@.len() > 0 && text::byte_length(d@)
            <= limits.max_description),
        r is Err ==> after == before && (r->Err_0 matches Error::InvalidLength {
            context: LengthOf::Description,
            ..
        }),
        r matches Ok(effects) ==> if description is Some && before.description is Some
            && before.description->Some_0@ == description->Some_0@ {
            after == before && does_nothing(effects)
        } else {
            &&& takes_over(before, after, conversation)
            &&& after.excluded == before.excluded
            &&& after.permissions == conversation.permissions
            &&& only_saves(effects)
            &&& asks_nobody(effects)
            &&& effects.event == Some(
                MessageEventKind::ConversationDescriptionChanged {
                    conversation_id: before.id,
                    description,
                },
            )
        },
{
}

/// Who is kept out, and who no longer is, is taken over from the creator alone, and in silence.
pub proof fn restriction_is_the_creators(
    before: ConversationDocument,
    after: ConversationDocument,
    r: Result<Effects, Error>,
    own: Did,
    sender: Did,
    conversation: ConversationDocument,
    kind: ConversationUpdateKind,
    keeper: Keeper,
    limits: Limits,
)
    requires
        incoming::message_event_post(
            before,
            after,
            r,
            own,
            sender,
            MessagingEvents::UpdateConversation { conversation, kind },
            true,
            keeper,
            limits,
        ),
        before.key_refusal(own) is None,
        kind is AddRestricted || kind is RemoveRestricted,
    ensures
        r is Ok <==> before.creator == Some(sender),
        r is Err ==> r == Err::<Effects, Error>(Error::Unauthorized) && after == before,
        r matches Ok(effects) ==> {
            &&& takes_over(before, after, conversation)
            &&& after.excluded == before.excluded
            &&& after.permissions == conversation.permissions
            &&& only_saves(effects)
            &&& asks_nobody(effects)
            &&& effects.event is None
        },
{
}

/// New permissions are taken over from the creator alone, and the subscribers are told which were
/// given and which were taken away.
pub proof fn permissions_are_the_creators(
    before: ConversationDocument,
    after: ConversationDocument,
    r: Result<Effects, Error>,
    own: Did,
    sender: Did,
    conversation: ConversationDocument,
    permissions: IndexMap<(u128, u128), Vec<GroupPermission>>,
    keeper: Keeper,
    limits: Limits,
)
    requires
        incoming::message_event_post(
            before,
            after,
            r,
            own,
            sender,
            MessagingEvents::UpdateConversation {
                conversation,
                kind: ConversationUpdateKind::ChangePermissions { permissions },
            },
            true,
            keeper,
            limits,
        ),
        before.key_refusal(own) is None,
    ensures
        r is Ok <==> before.creator == Some(sender),
        r is Err ==> r == Err::<Effects, Error>(Error::Unauthorized) && after == before,
        r matches Ok(effects) ==> {
            &&& takes_over(before, after, conversation)
            &&& after.excluded == before.excluded
            &&& keeper is Task ==> after.permissions == conversation.permissions
            &&& keeper is Store ==> after.permissions == permissions
            &&& only_saves(effects)
            &&& asks_nobody(effects)
            &&& effects.event matches Some(
                MessageEventKind::ConversationPermissionsUpdated {
                    conversation_id,
                    added,
                    removed,
                },
            )
            &&& conversation_id == before.id
            &&& keeper is Task ==> added@ == members::granted_beyond(
                ordered::permission_entries(permissions),
                ordered::permission_entries(before.permissions),
            ) && removed@ == members::granted_beyond(
                ordered::permission_entries(before.permissions),
                ordered::permission_entries(permissions),
            )
            &&& keeper is Store ==> added@ == members::granted_beyond(
                ordered::permission_entries(permissions),
                ordered::permission_entries(conversation.permissions),
            ) && removed@ == members::granted_beyond(
                ordered::permission_entries(conversation.permissions),
                ordered::permission_entries(permissions),
            )
        },
{
}

/// An image that comes or goes is taken over with the received conversation, and the subscribers are
/// told of that image.
pub proof fn changed_image_is_taken_over(
    before: ConversationDocument,
    after: ConversationDocument,
    r: Result<Effects, Error>,
    own: Did,
    sender: Did,
    conversation: ConversationDocument,
    kind: ConversationUpdateKind,
    keeper: Keeper,
    limits: Limits,
)
    requires
        incoming::message_event_post(
            before,
            after,
            r,
            own,
            sender,
            MessagingEvents::UpdateConversation { conversation, kind },
            true,
            keeper,
            limits,
        ),
        before.key_refusal(own) is None,
        kind is AddedIcon || kind is RemovedIcon || kind is AddedBanner || kind is RemovedBanner,
    ensures
        r is Ok,
        takes_over(before, after, conversation),
        after.excluded == before.excluded,
        after.permissions == conversation.permissions,
        only_saves(r->Ok_0),
        asks_nobody(r->Ok_0),
        kind is AddedIcon || kind is RemovedIcon ==> r->Ok_0.event == Some(
            MessageEventKind::ConversationUpdatedIcon { conversation_id: before.id },
        ),
        kind is AddedBanner || kind is RemovedBanner ==> r->Ok_0.event == Some(
            MessageEventKind::ConversationUpdatedBanner { conversation_id: before.id },
        ),
{
}

/// Where nothing can be read, nothing that comes in changes anything.
pub proof fn unreadable_event_is_refused(
    before: ConversationDocument,
    after: ConversationDocument,
    r: Result<Effects, Error>,
    own: Did,
    sender: Did,
    event: MessagingEvents,
    genuine: bool,
    keeper: Keeper,
    limits: Limits,
)
    requires
        incoming::message_event_post(
            before,
            after,
            r,
            own,
            sender,
            event,
            genuine,
            keeper,
            limits,
        ),
        before.key_refusal(own) is Some,
    ensures
        r is Err,
        after == before,
{
}

/// A sign of activity changes nothing in the document.
pub proof fn activity_changes_nothing(
    before: ConversationDocument,
    after: ConversationDocument,
    r: Result<Effects, Error>,
    own: Did,
    sender: Did,
    conversation_id: Uuid,
    member: Did,
    event: MessageEvent,
    cancelled: bool,
    genuine: bool,
    keeper: Keeper,
    limits: Limits,
)
    requires
        incoming::message_event_post(
            before,
            after,
            r,
            own,
            sender,
            MessagingEvents::Event { conversation_id, member, event, cancelled },
            genuine,
            keeper,
            limits,
        ),
        before.key_refusal(own) is None,
    ensures
        after == before,
        r matches Ok(effects) && does_nothing(effects),
        incoming::activity_event(
            MessagingEvents::Event { conversation_id, member, event, cancelled },
        ) matches Ok(e) && (cancelled ==> e == (MessageEventKind::EventCancelled {
            conversation_id,
            did_key: member,
            event,
        })) && (!cancelled ==> e == (MessageEventKind::EventReceived {
            conversation_id,
            did_key: member,
            event,
        })),
{
}

/// What was granted beyond other permissions is exactly what one member list holds and the other
/// does not.
pub proof fn granted_beyond_is_the_difference(
    entries: members::Permissions,
    base: members::Permissions,
    did: Did,
    permission: GroupPermission,
)
    requires
        ordered::distinct_keys(entries),
        ordered::distinct_keys(base),
    ensures
        members::granted_beyond(entries, base).contains(Grant { did, permission }) <==> (
        exists|i: int|
            0 <= i < entries.len() && (#[trigger] entries[i]).0 == did && entries[i].1.contains(
                permission,
            )) && (forall|i: int|
            0 <= i < base.len() && (#[trigger] base[i]).0 == did ==> !base[i].1.contains(
                permission,
            )),
    decreases entries.len(),
{
    let grant = Grant { did, permission };
    if entries.len() > 0 {
        let head = entries.drop_last();
        assert forall|a: int, b: int| 0 <= a < b < head.len() implies (#[trigger] head[a]).0 != (
        #[trigger] head[b]).0 by {
            assert(entries[a].0 != entries[b].0);
        }
        granted_beyond_is_the_difference(head, base, did, permission);
        let (last_did, list) = entries.last();
        let earlier = members::granted_beyond(head, base);
        let held = members::permissions_of(base, last_did);
        let more = members::grants(last_did, members::lacking(list, held));
        let all = members::granted_beyond(entries, base);
        assert(all == earlier + more);
        lemma_lacking(list, held, permission);
        if ordered::has_key(base, last_did) {
            let k = ordered::key_index(base, last_did);
            assert(base[k].0 == last_did);
            assert(held == base[k].1);
            assert forall|i: int| 0 <= i < base.len() && (#[trigger] base[i]).0
                == last_did implies i == k by {
                if i != k {
                    assert(base[i].0 == base[k].0);
                }
            }
        } else {
            assert forall|i: int| 0 <= i < base.len() implies (#[trigger] base[i]).0
                != last_did by {
                if base[i].0 == last_did {
                    assert(ordered::has_key(base, last_did));
                }
            }
        }
        let kept = members::lacking(list, held);
        assert(more.contains(grant) <==> last_did == did && kept.contains(permission)) by {
            if more.contains(grant) {
                let i = choose|i: int| 0 <= i < more.len() && more[i] == grant;
                assert(kept[i] == permission);
            }
            if last_did == did && kept.contains(permission) {
                let i = choose|i: int| 0 <= i < kept.len() && kept[i] == permission;
                assert(more[i] == grant);
            }
        }
        assert(all.contains(grant) <==> earlier.contains(grant) || more.contains(grant)) by {
            if all.contains(grant) {
                let i = choose|i: int| 0 <= i < all.len() && all[i] == grant;
                if i < earlier.len() {
                    assert(earlier[i] == grant);
                } else {
                    assert(more[i - earlier.len()] == grant);
                }
            }
            if earlier.contains(grant) {
                let i = choose|i: int| 0 <= i < earlier.len() && earlier[i] == grant;
                assert(all[i] == grant);
            }
            if more.contains(grant) {
                let i = choose|i: int| 0 <= i < more.len() && more[i] == grant;
                assert(all[earlier.len() + i] == grant);
            }
        }
        if exists|i: int|
            0 <= i < head.len() && (#[trigger] head[i]).0 == did && head[i].1.contains(
                permission,
            ) {
            let i = choose|i: int|
                0 <= i < head.len() && (#[trigger] head[i]).0 == did && head[i].1.contains(
                    permission,
                );
            assert(entries[i] == head[i]);
        }
        if exists|i: int|
            0 <= i < entries.len() && (#[trigger] entries[i]).0 == did && entries[i].1.contains(
                permission,
            ) {
            let i = choose|i: int|
                0 <= i < entries.len() && (#[trigger] entries[i]).0 == did
                    && entries[i].1.contains(permission);
            if i < head.len() {
                assert(head[i] == entries[i]);
            }
        }
        assert(entries[entries.len() - 1] == entries.last());
    }
}

proof fn lemma_lacking(
    list: Seq<GroupPermission>,
    base: Seq<GroupPermission>,
    permission: GroupPermission,
)
    ensures
        members::lacking(list, base).contains(permission) <==> list.contains(permission)
            && !base.contains(permission),
    decreases list.len(),
{
    reveal(Seq::filter);
    if list.len() > 0 {
        let head = list.drop_last();
        lemma_lacking(head, base, permission);
        assert(list == head.push(list.last()));
        let kept = members::lacking(head, base);
        let all = members::lacking(list, base);
        if kept.contains(permission) {
            let i = choose|i: int| 0 <= i < kept.len() && kept[i] == permission;
            assert(all[i] == permission);
        }
        if all.contains(permission) {
            let i = choose|i: int| 0 <= i < all.len() && all[i] == permission;
            if i < kept.len() {
                assert(kept[i] == permission);
                let k = choose|k: int| 0 <= k < head.len() && head[k] == permission;
                assert(list[k] == permission);
            } else {
                assert(list[list.len() - 1] == permission);
            }
        }
        if list.contains(permission) && !base.contains(permission) {
            let k = choose|k: int| 0 <= k < list.len() && list[k] == permission;
            if k < head.len() {
                assert(head[k] == permission);
            } else {
                assert(all[kept.len() as int] == permission);
            }
        }
    }
}

/// Where the permissions of a single member are given, they stay as they were. The subscribers are told
/// that what the member held and is not given was added, and that what it is given and did not hold was
/// removed.
pub proof fn single_permissions_are_compared(
    before: ConversationDocument,
    after: ConversationDocument,
    r: Result<Effects, Error>,
    own: Did,
    member: Did,
    list: Vec<GroupPermission>,
    permission: GroupPermission,
)
    requires
        members::update_permissions_post(
            before,
            after,
            r,
            own,
            members::GroupPermissionOpt::Single(member, list),
        ),
        before.creator == Some(own),
    ensures
        after == before,
        r is Ok,
        r->Ok_0.event matches Some(
            MessageEventKind::ConversationPermissionsUpdated { conversation_id, added, removed },
        ) && {
            let grant = Grant { did: member, permission };
            &&& conversation_id == before.id
            &&& added@.contains(grant) <==> before.permits(member, permission)
                && !list@.contains(permission)
            &&& removed@.contains(grant) <==> list@.contains(permission) && !before.permits(
                member,
                permission,
            )
            &&& forall|k: int| 0 <= k < added@.len() ==> (#[trigger] added@[k]).did == member
            &&& forall|k: int| 0 <= k < removed@.len() ==> (#[trigger] removed@[k]).did == member
        },
{
    let held = members::permissions_of(ordered::permission_entries(before.permissions), member);
    lemma_lacking(held, list@, permission);
    lemma_lacking(list@, held, permission);
    lemma_granted(member, members::lacking(held, list@), permission);
    lemma_granted(member, members::lacking(list@, held), permission);
}

proof fn lemma_granted(did: Did, list: Seq<GroupPermission>, permission: GroupPermission)
    ensures
        members::grants(did, list).contains(Grant { did, permission }) <==> list.contains(
            permission,
        ),
{
    let all = members::grants(did, list);
    if list.contains(permission) {
        let i = choose|i: int| 0 <= i < list.len() && list[i] == permission;
        assert(all[i] == (Grant { did, permission }));
    }
    if all.contains(Grant { did, permission }) {
        let i = choose|i: int| 0 <= i < all.len() && all[i] == (Grant { did, permission });
        assert(list[i] == permission);
    }
}

} // verus!
