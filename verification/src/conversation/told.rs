//! What the task of a conversation does when it is told to, said of what it has before and after.
use vstd::prelude::*;
use crate::error::{Error, Reason};
use crate::ids::{self, Did, Uuid};
use crate::ordered;
use super::acts;
use super::attach;
use super::carrying;
use super::comings;
use super::commands::{self, ConversationTaskCommand, TaskReply};
use super::document::{self, ConversationDocument};
use super::exchange;
use super::incoming::Keeper;
use super::keys;
use super::lifecycle;
use super::message::{self, Attachment, Message};
use super::received::{self, lemma_place};
use super::store::{self, ConversationInner, StoredKeystore};
use super::task::{self, ConversationTask};
use super::{
    ConversationImageType, ConversationType, Effects, Limits, GroupPermission, MailboxCommand,
    MessageEvent, MessageEventKind, MessageStatus, MessageType, Outgoing, RayGunEventKind,
    ReactionState,
};

verus! {

/// A message that is read says what the message does.
pub proof fn read_message_says_the_same(a: Message, b: Message, i: int)
    requires
        message::same_message(a, b),
    ensures
        a.id == b.id,
        a.message_type == b.message_type,
        a.conversation_id == b.conversation_id,
        a.sender == b.sender,
        a.date == b.date,
        a.modified == b.modified,
        a.replied == b.replied,
        a.pinned == b.pinned,
        a.lines@.len() == b.lines@.len(),
        0 <= i < b.lines@.len() ==> a.lines@[i]@ == b.lines@[i]@,
        a.attachments@.len() == b.attachments@.len(),
        0 <= i < b.attachments@.len() ==> a.attachments@[i] == b.attachments@[i],
        ordered::reaction_entries(a.reactions) == ordered::reaction_entries(b.reactions),
{
}

/// A conversation that is copied is the same conversation: each of its messages is, at its place.
pub proof fn copied_conversation_is_the_same(
    a: ConversationDocument,
    b: ConversationDocument,
    i: int,
)
    requires
        document::same_document(a, b),
    ensures
        a.id == b.id,
        a.name == b.name,
        a.description == b.description,
        a.creator == b.creator,
        a.conversation_type == b.conversation_type,
        a.favorite == b.favorite,
        a.archived == b.archived,
        a.deleted == b.deleted,
        a.icon == b.icon,
        a.banner == b.banner,
        ordered::permission_entries(a.permissions) == ordered::permission_entries(b.permissions),
        a.recipients@ == b.recipients@,
        a.excluded@ == b.excluded@,
        a.restrict@ == b.restrict@,
        a.messages@.len() == b.messages@.len(),
        0 <= i < b.messages@.len() ==> a.messages@[i].id == b.messages@[i].id
            && a.messages@[i].sender == b.messages@[i].sender && a.messages@[i].date
            == b.messages@[i].date && a.messages@[i].modified == b.messages@[i].modified
            && a.messages@[i].lines@ == b.messages@[i].lines@ && a.messages@[i].pinned
            == b.messages@[i].pinned,
{
}

/// Only the document of a task changes.
pub open spec fn only_document_changed(before: ConversationTask, after: ConversationTask) -> bool {
    &&& after.own == before.own
    &&& after.keystore == before.keystore
    &&& after.pending_key_exchange == before.pending_key_exchange
    &&& after.pending_key_request_sent == before.pending_key_request_sent
    &&& after.pending_ping_response == before.pending_ping_response
    &&& after.queue == before.queue
    &&& after.limits == before.limits
}

/// A message is read where there is one, and the conversation has a key; its reference needs no key.
/// Reading changes nothing.
pub proof fn message_is_read_by_its_identifier(
    before: ConversationTask,
    after: ConversationTask,
    reply: TaskReply,
    message_id: Uuid,
    by_reference: bool,
    i: int,
)
    requires
        by_reference ==> commands::process_command_post(
            before,
            after,
            reply,
            ConversationTaskCommand::GetMessageReference { message_id },
        ),
        !by_reference ==> commands::process_command_post(
            before,
            after,
            reply,
            ConversationTaskCommand::GetMessage { message_id },
        ),
        document::distinct_messages(before.document.messages@),
    ensures
        after == before,
        reply is Message,
        !by_reference && before.document.key_refusal(before.own) is Some ==> reply->Message_0
            == Err::<Message, Error>(Error::InvalidConversation),
        (by_reference || before.document.key_refusal(before.own) is None) ==> {
            &&& (forall|j: int|
                0 <= j < before.document.messages@.len() ==> (
                #[trigger] before.document.messages@[j]).id != message_id) ==> reply->Message_0
                == Err::<Message, Error>(Error::MessageNotFound)
            &&& 0 <= i < before.document.messages@.len() && before.document.messages@[i].id
                == message_id ==> {
                &&& reply->Message_0 is Ok
                &&& reply->Message_0->Ok_0.id == message_id
                &&& reply->Message_0->Ok_0.sender == before.document.messages@[i].sender
                &&& reply->Message_0->Ok_0.date == before.document.messages@[i].date
                &&& reply->Message_0->Ok_0.modified == before.document.messages@[i].modified
                &&& reply->Message_0->Ok_0.replied == before.document.messages@[i].replied
                &&& reply->Message_0->Ok_0.lines@ == before.document.messages@[i].lines@
            }
        },
{
    if 0 <= i < before.document.messages@.len() && before.document.messages@[i].id == message_id {
        lemma_place(before.document.messages@, i, message_id);
    }
    received::conversation_has_a_key(before.document, before.own);
}

/// All the messages are read, in their order, and counted.
pub proof fn all_messages_are_read(
    before: ConversationTask,
    after: ConversationTask,
    reply: TaskReply,
    command: ConversationTaskCommand,
    i: int,
)
    requires
        commands::process_command_post(before, after, reply, command),
    ensures
        command is GetMessagesCount ==> after == before && reply == TaskReply::Count(
            before.document.messages.len(),
        ),
        command is GetMessages && before.document.key_refusal(before.own) is Some ==> after == before
            && reply == TaskReply::Messages(Err::<Vec<Message>, Error>(Error::InvalidConversation)),
        (command is GetMessages && before.document.key_refusal(before.own) is None) || command
            is GetMessageReferences ==> {
            &&& after == before
            &&& reply is Messages
            &&& reply->Messages_0 is Ok
            &&& reply->Messages_0->Ok_0@.len() == before.document.messages@.len()
            &&& 0 <= i < before.document.messages@.len() ==> {
                &&& reply->Messages_0->Ok_0@[i].id == before.document.messages@[i].id
                &&& reply->Messages_0->Ok_0@[i].sender == before.document.messages@[i].sender
                &&& reply->Messages_0->Ok_0@[i].date == before.document.messages@[i].date
                &&& reply->Messages_0->Ok_0@[i].lines@ == before.document.messages@[i].lines@
                &&& reply->Messages_0->Ok_0@[i].pinned == before.document.messages@[i].pinned
            }
        },
        command is EventHandler ==> after == before && reply == TaskReply::Subscription,
{
    received::conversation_has_a_key(before.document, before.own);
}

/// The icon and the banner are each read for themselves, where they are there.
pub proof fn each_image_is_read(before: ConversationTask, after: ConversationTask, reply: TaskReply)
    ensures
        commands::process_command_post(before, after, reply, ConversationTaskCommand::GetIcon) ==> {
            &&& after == before
            &&& before.document.icon matches Some(cid) ==> reply == TaskReply::Image(Ok(cid))
            &&& before.document.icon is None ==> reply == TaskReply::Image(Err(Error::Other))
        },
        commands::process_command_post(before, after, reply, ConversationTaskCommand::GetBanner)
            ==> {
            &&& after == before
            &&& before.document.banner matches Some(cid) ==> reply == TaskReply::Image(Ok(cid))
            &&& before.document.banner is None ==> reply == TaskReply::Image(Err(Error::Other))
        },
{
}

/// A message of a direct conversation is sent once it is there; of a group that is not said.
pub proof fn status_is_that_of_the_message(
    before: ConversationTask,
    after: ConversationTask,
    reply: TaskReply,
    message_id: Uuid,
)
    requires
        commands::process_command_post(
            before,
            after,
            reply,
            ConversationTaskCommand::MessageStatus { message_id },
        ),
    ensures
        after == before,
        before.document.conversation_type is Group ==> reply == TaskReply::Status(
            Err(Error::Unimplemented),
        ),
        before.document.conversation_type is Direct ==> (reply == TaskReply::Status(
            Ok(MessageStatus::Sent),
        ) <==> exists|i: int|
            0 <= i < before.document.messages@.len() && (
            #[trigger] before.document.messages@[i]).id == message_id),
        before.document.conversation_type is Direct && reply != TaskReply::Status(
            Ok(MessageStatus::Sent),
        ) ==> reply == TaskReply::Status(Err(Error::MessageNotFound)),
{
}

/// A conversation is a favourite or not as was asked for, and is archived or not.
pub proof fn conversation_is_filed_as_told(
    before: ConversationTask,
    after: ConversationTask,
    reply: TaskReply,
    favorite: bool,
)
    ensures
        commands::process_command_post(
            before,
            after,
            reply,
            ConversationTaskCommand::FavoriteConversation { favorite },
        ) ==> {
            &&& after.document.favorite == favorite
            &&& after.document == (ConversationDocument { favorite, ..before.document })
            &&& only_document_changed(before, after)
            &&& reply == TaskReply::Filed(None)
        },
        commands::process_command_post(
            before,
            after,
            reply,
            ConversationTaskCommand::ArchivedConversation,
        ) ==> {
            &&& after.document.archived
            &&& after.document == (ConversationDocument { archived: true, ..before.document })
            &&& only_document_changed(before, after)
            &&& reply is Filed
            &&& !before.document.archived ==> reply == TaskReply::Filed(
                Some(
                    RayGunEventKind::ConversationArchived { conversation_id: before.document.id },
                ),
            )
            &&& before.document.archived ==> reply == TaskReply::Filed(None)
        },
        commands::process_command_post(
            before,
            after,
            reply,
            ConversationTaskCommand::UnarchivedConversation,
        ) ==> {
            &&& !after.document.archived
            &&& after.document == (ConversationDocument { archived: false, ..before.document })
            &&& only_document_changed(before, after)
            &&& reply is Filed
            &&& before.document.archived ==> reply == TaskReply::Filed(
                Some(
                    RayGunEventKind::ConversationUnarchived { conversation_id: before.document.id },
                ),
            )
            &&& !before.document.archived ==> reply == TaskReply::Filed(None)
        },
{
}

/// An activity is told as the own one: as begun when it is sent, as ended when it is cancelled. It
/// needs someone to tell in a direct conversation, and an own key in a group.
pub proof fn activity_is_told_as_the_own(
    before: ConversationTask,
    after: ConversationTask,
    reply: TaskReply,
    event: MessageEvent,
    cancelled: bool,
)
    requires
        cancelled ==> commands::process_command_post(
            before,
            after,
            reply,
            ConversationTaskCommand::CancelEvent { event },
        ),
        !cancelled ==> commands::process_command_post(
            before,
            after,
            reply,
            ConversationTaskCommand::SendEvent { event },
        ),
    ensures
        after == before,
        reply is Activity,
        reply->Activity_0 is Ok <==> match before.document.conversation_type {
            ConversationType::Direct => before.document.key_refusal(before.own) is None,
            ConversationType::Group => keys::latest_key(
                before.keystore.keys@,
                before.own,
            ) is Some,
        },
        reply->Activity_0 is Ok ==> reply->Activity_0->Ok_0 == (Outgoing::Event {
            member: before.own,
            event,
            cancelled,
        }),
        reply->Activity_0 is Err ==> reply->Activity_0->Err_0
            == match before.document.conversation_type {
            ConversationType::Direct => Error::InvalidConversation,
            ConversationType::Group => Error::PublicKeyDoesntExist,
        },
{
    received::conversation_has_a_key(before.document, before.own);
}

/// A message that a task is told to send comes last, from the own identity.
pub proof fn told_message_is_sent(
    before: ConversationTask,
    after: ConversationTask,
    reply: TaskReply,
    command: ConversationTaskCommand,
)
    requires
        commands::process_command_post(before, after, reply, command),
    ensures
        command matches ConversationTaskCommand::SendMessage { id, date, lines } ==> {
            &&& only_document_changed(before, after)
            &&& reply is Changed
            &&& reply->Changed_0 is Err ==> after.document == before.document
            &&& reply->Changed_0 is Ok ==> {
                &&& after.document.messages@.drop_last() == before.document.messages@
                &&& after.document.messages@.len() == before.document.messages@.len() + 1
                &&& after.document.messages@.last().id == id
                &&& after.document.messages@.last().date == date
                &&& after.document.messages@.last().lines == lines
                &&& after.document.messages@.last().sender == before.own
                &&& after.document.messages@.last().replied is None
            }
        },
        command matches ConversationTaskCommand::ReplyMessage { id, date, message_id, lines } ==> {
            &&& only_document_changed(before, after)
            &&& reply is Changed
            &&& reply->Changed_0 is Err ==> after.document == before.document
            &&& reply->Changed_0 is Ok ==> {
                &&& after.document.messages@.drop_last() == before.document.messages@
                &&& after.document.messages@.len() == before.document.messages@.len() + 1
                &&& after.document.messages@.last().id == id
                &&& after.document.messages@.last().date == date
                &&& after.document.messages@.last().lines == lines
                &&& after.document.messages@.last().sender == before.own
                &&& after.document.messages@.last().replied == Some(message_id)
            }
        },
        (command is SendMessage || command is ReplyMessage) ==> {
            let lines = if command is SendMessage {
                command->SendMessage_lines
            } else {
                command->ReplyMessage_lines
            };
            let id = if command is SendMessage {
                command->SendMessage_id
            } else {
                command->ReplyMessage_id
            };
            reply->Changed_0 is Ok <==> {
                &&& message::lines_refusal(
                    lines@,
                    before.limits.min_message_size,
                    before.limits.max_message_size,
                ) is None
                &&& before.document.key_refusal(before.own) is None
                &&& forall|i: int|
                    0 <= i < before.document.messages@.len() ==> (
                    #[trigger] before.document.messages@[i]).id != id
            }
        },
{
    match command {
        ConversationTaskCommand::SendMessage { id, date, lines } => {
            acts::sent_message_comes_last(
                before.document,
                after.document,
                reply->Changed_0,
                before.own,
                id,
                date,
                None,
                lines,
                before.limits,
            );
        },
        ConversationTaskCommand::ReplyMessage { id, date, message_id, lines } => {
            acts::sent_message_comes_last(
                before.document,
                after.document,
                reply->Changed_0,
                before.own,
                id,
                date,
                Some(message_id),
                lines,
                before.limits,
            );
        },
        _ => {},
    }
}

/// A message that a task is told to change is changed: its lines, or whether it is pinned, or the own
/// reaction to it; or it goes, and the others are told. The other messages stay.
pub proof fn told_change_is_made_to_its_message(
    before: ConversationTask,
    after: ConversationTask,
    reply: TaskReply,
    command: ConversationTaskCommand,
    i: int,
)
    requires
        commands::process_command_post(before, after, reply, command),
        document::distinct_messages(before.document.messages@),
        0 <= i < before.document.messages@.len(),
        ordered::distinct_keys(
            ordered::reaction_entries(before.document.messages@[i].reactions),
        ),
        before.document.key_refusal(before.own) is None,
    ensures
        command matches ConversationTaskCommand::EditMessage { message_id, lines, now }
            ==> message_id == before.document.messages@[i].id && message::lines_refusal(
            lines@,
            before.limits.min_message_size,
            before.limits.max_message_size,
        ) is None ==> {
            &&& only_document_changed(before, after)
            &&& reply is Changed
            &&& reply->Changed_0 is Ok <==> before.document.messages@[i].sender == before.own
            &&& reply->Changed_0 is Ok ==> received::only_message_changed(
                before.document,
                after.document,
                i,
            ) && after.document.messages@[i].lines == lines && after.document.messages@[i].modified
                == Some(now)
        },
        command matches ConversationTaskCommand::DeleteMessage { message_id } ==> message_id
            == before.document.messages@[i].id ==> {
            &&& only_document_changed(before, after)
            &&& reply is Changed
            &&& reply->Changed_0 is Ok
            &&& after.document.messages@ == before.document.messages@.take(i)
                + before.document.messages@.skip(i + 1)
            &&& acts::tells_the_others(reply->Changed_0->Ok_0, Outgoing::Delete { message_id })
            &&& reply->Changed_0->Ok_0.mailbox == Some(MailboxCommand::RemoveMessage { message_id })
        },
        command matches ConversationTaskCommand::PinMessage { message_id, state } ==> message_id
            == before.document.messages@[i].id ==> {
            &&& only_document_changed(before, after)
            &&& reply is Changed
            &&& reply->Changed_0 is Ok
            &&& received::only_message_changed(before.document, after.document, i)
            &&& after.document.messages@[i].pinned == (state is Pin)
        },
        command matches ConversationTaskCommand::ReactMessage { message_id, state, emoji }
            ==> message_id == before.document.messages@[i].id ==> {
            let kinds = ordered::reaction_entries(before.document.messages@[i].reactions);
            let held = message::reactors(kinds, emoji@);
            let holds = message::reactors(
                ordered::reaction_entries(after.document.messages@[i].reactions),
                emoji@,
            );
            &&& only_document_changed(before, after)
            &&& reply is Changed
            &&& reply->Changed_0 is Ok <==> match state {
                ReactionState::Add => kinds.len() < before.limits.max_reactions && !held.contains(
                    before.own,
                ),
                ReactionState::Remove => held.contains(before.own),
            }
            &&& reply->Changed_0 is Ok && state is Add ==> holds == held.push(before.own)
            &&& reply->Changed_0 is Ok && state is Remove ==> holds == ids::without(
                held,
                before.own,
            )
        },
{
    match command {
        ConversationTaskCommand::EditMessage { message_id, lines, now } => {
            if message_id == before.document.messages@[i].id && message::lines_refusal(
                lines@,
                before.limits.min_message_size,
                before.limits.max_message_size,
            ) is None {
                acts::own_message_can_be_edited(
                    before.document,
                    after.document,
                    reply->Changed_0,
                    before.own,
                    message_id,
                    lines,
                    now,
                    before.limits,
                    i,
                );
            }
        },
        ConversationTaskCommand::DeleteMessage { message_id } => {
            if message_id == before.document.messages@[i].id {
                acts::deleted_message_goes(
                    before.document,
                    after.document,
                    reply->Changed_0,
                    message_id,
                    true,
                    i,
                );
            }
        },
        ConversationTaskCommand::PinMessage { message_id, state } => {
            if message_id == before.document.messages@[i].id {
                acts::pinned_message_is_pinned(
                    before.document,
                    after.document,
                    reply->Changed_0,
                    before.own,
                    message_id,
                    state,
                    i,
                );
            }
        },
        ConversationTaskCommand::ReactMessage { message_id, state, emoji } => {
            if message_id == before.document.messages@[i].id {
                acts::own_reaction_is_kept(
                    before.document,
                    after.document,
                    reply->Changed_0,
                    before.own,
                    message_id,
                    state,
                    emoji,
                    before.limits,
                    i,
                );
            }
        },
        _ => {},
    }
}

/// A member that a task is told to take in comes last and is asked for a sign of life. One that it is
/// told to take out goes, and nothing is expected of it any more.
pub proof fn told_member_comes_or_goes(
    before: ConversationTask,
    after: ConversationTask,
    reply: TaskReply,
    command: ConversationTaskCommand,
    other: Did,
)
    requires
        commands::process_command_post(before, after, reply, command),
        ordered::did_values(before.pending_ping_response).no_duplicates(),
    ensures
        command matches ConversationTaskCommand::AddParticipant { member, blocked } ==> {
            &&& only_document_changed(before, after)
            &&& reply is Changed
            &&& reply->Changed_0 is Ok <==> {
                &&& before.document.conversation_type is Group
                &&& before.document.creator is Some
                &&& before.document.creator == Some(before.own) || before.document.permits(
                    before.own,
                    GroupPermission::AddParticipants,
                )
                &&& before.document.creator != Some(member)
                &&& !blocked
                &&& !before.document.restrict@.contains(member)
                &&& !before.document.recipients@.contains(member)
            }
            &&& reply->Changed_0 is Err ==> after.document == before.document
            &&& reply->Changed_0 is Ok ==> {
                &&& after.document.recipients@ == before.document.recipients@.push(member)
                &&& reply->Changed_0->Ok_0.ping == Some(member)
                &&& reply->Changed_0->Ok_0.request_key is None
            }
        },
        command matches ConversationTaskCommand::RemoveParticipant { member, broadcast } ==> {
            &&& reply is Changed
            &&& reply->Changed_0 is Ok <==> {
                &&& before.document.conversation_type is Group
                &&& before.document.creator == Some(before.own)
                &&& member != before.own
                &&& before.document.recipients@.contains(member)
            }
            &&& reply->Changed_0 is Err ==> after == before
            &&& reply->Changed_0 is Ok ==> {
                &&& after.document.recipients@ == ids::without(
                    before.document.recipients@,
                    member,
                )
                &&& !ordered::did_values(after.pending_ping_response).contains(member)
                &&& other != member ==> (ordered::did_values(after.pending_ping_response).contains(
                    other,
                ) <==> ordered::did_values(before.pending_ping_response).contains(other))
                &&& after.keystore == before.keystore
                &&& after.queue == before.queue
                &&& after.pending_key_exchange == before.pending_key_exchange
                &&& broadcast <==> reply->Changed_0->Ok_0.direct is Some
            }
        },
        command matches ConversationTaskCommand::AddExclusion { member, signature, genuine } ==> {
            &&& reply is Changed
            &&& reply->Changed_0 is Err ==> after == before
            &&& reply->Changed_0 is Ok ==> before.document.recipients@.contains(member)
                && before.document.creator is Some && before.document.creator != Some(member)
            &&& reply->Changed_0 is Ok && before.document.creator == Some(before.own) ==> {
                &&& after.document.recipients@ == ids::without(
                    before.document.recipients@,
                    member,
                )
                &&& !ordered::did_values(after.pending_ping_response).contains(member)
                &&& other != member ==> (ordered::did_values(after.pending_ping_response).contains(
                    other,
                ) <==> ordered::did_values(before.pending_ping_response).contains(other))
            }
            &&& reply->Changed_0 is Ok && before.document.creator != Some(before.own) ==> {
                &&& genuine
                &&& only_document_changed(before, after)
                &&& after.document.recipients@ == before.document.recipients@
                &&& exists|j: int|
                    0 <= j < after.document.excluded@.len() && (
                    #[trigger] after.document.excluded@[j]).did == member
            }
        },
        command matches ConversationTaskCommand::AddRestricted { member, blocked } ==> {
            &&& only_document_changed(before, after)
            &&& reply is Changed
            &&& reply->Changed_0 is Ok <==> before.document.conversation_type is Group
                && before.document.creator == Some(before.own) && member != before.own && blocked
            &&& reply->Changed_0 is Err ==> after.document == before.document
            &&& reply->Changed_0 is Ok ==> after.document.restrict@
                == before.document.restrict@.push(member)
        },
        command matches ConversationTaskCommand::RemoveRestricted { member, blocked } ==> {
            &&& only_document_changed(before, after)
            &&& reply is Changed
            &&& reply->Changed_0 is Ok <==> before.document.conversation_type is Group
                && before.document.creator == Some(before.own) && member != before.own && !blocked
            &&& reply->Changed_0 is Err ==> after.document == before.document
            &&& reply->Changed_0 is Ok ==> !after.document.restrict@.contains(member)
        },
{
    match command {
        ConversationTaskCommand::AddParticipant { member, blocked } => {
            let asked = match reply->Changed_0 {
                Ok(effects) => Ok::<Effects, Error>(
                    Effects { ping: None, ..effects },
                ),
                Err(e) => Err(e),
            };
            acts::newcomer_is_taken_in(
                before.document,
                after.document,
                asked,
                before.own,
                member,
                blocked,
            );
            if reply->Changed_0 is Ok {
                assert(after.document.recipients@ == after.document.recipients@.drop_last().push(
                    after.document.recipients@.last(),
                ));
            }
        },
        ConversationTaskCommand::RemoveParticipant { member, broadcast } => {
            acts::member_is_taken_out(
                before.document,
                after.document,
                reply->Changed_0,
                before.own,
                member,
                broadcast,
                other,
            );
            ordered::set_takes_out(
                ordered::did_values(before.pending_ping_response),
                member,
                other,
            );
        },
        ConversationTaskCommand::AddExclusion { member, signature, genuine } => {
            acts::member_leaves_by_its_signature(
                before.document,
                after.document,
                reply->Changed_0,
                before.own,
                member,
                signature,
                genuine,
            );
            ordered::set_takes_out(
                ordered::did_values(before.pending_ping_response),
                member,
                other,
            );
        },
        ConversationTaskCommand::AddRestricted { member, blocked } => {
            acts::creator_keeps_out_and_lets_in(
                before.document,
                after.document,
                reply->Changed_0,
                before.own,
                member,
                blocked,
                other,
            );
        },
        ConversationTaskCommand::RemoveRestricted { member, blocked } => {
            acts::creator_keeps_out_and_lets_in(
                before.document,
                after.document,
                reply->Changed_0,
                before.own,
                member,
                blocked,
                other,
            );
        },
        _ => {},
    }
}

/// A name, a description or permissions that a task is told to give are what the conversation has then.
pub proof fn told_words_are_kept(
    before: ConversationTask,
    after: ConversationTask,
    reply: TaskReply,
    command: ConversationTaskCommand,
)
    requires
        commands::process_command_post(before, after, reply, command),
    ensures
        command matches ConversationTaskCommand::UpdateConversationName { name } ==> {
            &&& only_document_changed(before, after)
            &&& reply is Changed
            &&& reply->Changed_0 is Err ==> after.document == before.document
            &&& reply->Changed_0 is Ok ==> {
                &&& after.document == (ConversationDocument {
                    name: after.document.name,
                    ..before.document
                })
                &&& crate::text::trimmed(name@).len() > 0 ==> after.document.name is Some
                    && after.document.name->Some_0@ == crate::text::trimmed(name@)
                &&& crate::text::trimmed(name@).len() == 0 ==> after.document.name is None
            }
        },
        command matches ConversationTaskCommand::SetDescription { description } ==> {
            &&& only_document_changed(before, after)
            &&& reply is Changed
            &&& reply->Changed_0 is Err ==> after.document == before.document
            &&& reply->Changed_0 is Ok ==> after.document == (ConversationDocument {
                description,
                ..before.document
            })
        },
        command matches ConversationTaskCommand::UpdateConversationPermissions { permissions } ==> {
            &&& only_document_changed(before, after)
            &&& reply is Changed
            &&& reply->Changed_0 is Ok <==> before.document.creator == Some(before.own)
            &&& reply->Changed_0 is Ok && permissions is All ==> after.document == (
            ConversationDocument { permissions: permissions->All_0, ..before.document })
        },
{
    match command {
        ConversationTaskCommand::UpdateConversationName { name } => {
            acts::given_name_is_kept(
                before.document,
                after.document,
                reply->Changed_0,
                before.own,
                name@,
            );
        },
        ConversationTaskCommand::SetDescription { description } => {
            acts::given_description_is_kept(
                before.document,
                after.document,
                reply->Changed_0,
                before.own,
                description,
                before.limits,
            );
        },
        ConversationTaskCommand::UpdateConversationPermissions { permissions } => {
            acts::creator_gives_the_permissions(
                before.document,
                after.document,
                reply->Changed_0,
                before.own,
                permissions,
            );
        },
        _ => {},
    }
}

/// An image that a task is told to take away is the one that goes, and one that it is told to give is
/// measured by its own limit.
pub proof fn told_image_is_the_one_meant(
    before: ConversationTask,
    after: ConversationTask,
    reply: TaskReply,
    command: ConversationTaskCommand,
)
    requires
        commands::process_command_post(before, after, reply, command),
    ensures
        command is RemoveIcon ==> {
            &&& only_document_changed(before, after)
            &&& reply is Changed
            &&& reply->Changed_0 is Ok ==> before.document.icon is Some && after.document == (
            ConversationDocument { icon: None, ..before.document })
            &&& reply->Changed_0 is Err ==> after.document == before.document
            &&& before.document.conversation_type is Direct || before.document.creator == Some(
                before.own,
            ) ==> (reply->Changed_0 is Ok <==> before.document.icon is Some)
        },
        command is RemoveBanner ==> {
            &&& only_document_changed(before, after)
            &&& reply is Changed
            &&& reply->Changed_0 is Ok ==> before.document.banner is Some && after.document == (
            ConversationDocument { banner: None, ..before.document })
            &&& reply->Changed_0 is Err ==> after.document == before.document
            &&& before.document.conversation_type is Direct || before.document.creator == Some(
                before.own,
            ) ==> (reply->Changed_0 is Ok <==> before.document.banner is Some)
        },
        command is UpdateIcon ==> {
            &&& after == before
            &&& reply is PreparedImage
            &&& reply->PreparedImage_0 is Ok ==> reply->PreparedImage_0->Ok_0.size
                <= before.limits.max_icon_size
        },
        command is UpdateBanner ==> {
            &&& after == before
            &&& reply is PreparedImage
            &&& reply->PreparedImage_0 is Ok ==> reply->PreparedImage_0->Ok_0.size
                <= before.limits.max_banner_size
        },
        command matches ConversationTaskCommand::UpdateIcon { source } ==> source matches super::info::ImageSource::Stream {
            bytes,
            link,
        } ==> (before.document.conversation_type is Direct || before.document.creator == Some(
            before.own,
        )) && bytes@.len() <= before.limits.max_icon_size ==> reply->PreparedImage_0 is Ok
            && reply->PreparedImage_0->Ok_0.link == link,
        command matches ConversationTaskCommand::UpdateBanner { source } ==> source matches super::info::ImageSource::Stream {
            bytes,
            link,
        } ==> (before.document.conversation_type is Direct || before.document.creator == Some(
            before.own,
        )) && bytes@.len() <= before.limits.max_banner_size ==> reply->PreparedImage_0 is Ok
            && reply->PreparedImage_0->Ok_0.link == link,
{
    match command {
        ConversationTaskCommand::RemoveIcon => {
            acts::removed_image_is_gone(
                before.document,
                after.document,
                reply->Changed_0,
                before.own,
                ConversationImageType::Icon,
            );
        },
        ConversationTaskCommand::RemoveBanner => {
            acts::removed_image_is_gone(
                before.document,
                after.document,
                reply->Changed_0,
                before.own,
                ConversationImageType::Banner,
            );
        },
        ConversationTaskCommand::UpdateIcon { source } => {
            if reply->PreparedImage_0 is Ok {
                acts::stored_image_says_what_it_is(
                    before.document,
                    reply->PreparedImage_0,
                    before.own,
                    ConversationImageType::Icon,
                    source,
                    before.limits,
                    Keeper::Task,
                );
            }
        },
        ConversationTaskCommand::UpdateBanner { source } => {
            if reply->PreparedImage_0 is Ok {
                acts::stored_image_says_what_it_is(
                    before.document,
                    reply->PreparedImage_0,
                    before.own,
                    ConversationImageType::Banner,
                    source,
                    before.limits,
                    Keeper::Task,
                );
            }
        },
        _ => {},
    }
}

/// A file that a task is told to download is the one of that name in that message.
pub proof fn told_file_is_found(
    before: ConversationTask,
    after: ConversationTask,
    reply: TaskReply,
    message_id: Uuid,
    file: String,
    streamed: bool,
    i: int,
    k: int,
)
    requires
        streamed ==> commands::process_command_post(
            before,
            after,
            reply,
            ConversationTaskCommand::DownloadAttachmentStream { message_id, file },
        ),
        !streamed ==> commands::process_command_post(
            before,
            after,
            reply,
            ConversationTaskCommand::DownloadAttachment { message_id, file },
        ),
        document::distinct_messages(before.document.messages@),
        0 <= i < before.document.messages@.len(),
        before.document.messages@[i].id == message_id,
    ensures
        after == before,
        reply is Download,
        before.document.messages@[i].message_type != MessageType::Attachment ==> reply->Download_0
            == Err::<Attachment, Error>(Error::InvalidMessage),
        before.document.messages@[i].message_type == MessageType::Attachment && 0 <= k
            < before.document.messages@[i].attachments@.len()
            && before.document.messages@[i].attachments@[k].name@ == file@ && (forall|j: int|
            0 <= j < k ==> (#[trigger] before.document.messages@[i].attachments@[j]).name@ != file@)
            ==> reply->Download_0 is Ok && reply->Download_0->Ok_0
            == before.document.messages@[i].attachments@[k],
        before.document.messages@[i].message_type == MessageType::Attachment && (forall|j: int|
            0 <= j < before.document.messages@[i].attachments@.len() ==> (
            #[trigger] before.document.messages@[i].attachments@[j]).name@ != file@)
            ==> reply->Download_0 == Err::<Attachment, Error>(Error::FileNotFound),
{
    let found: Result<&Attachment, Error> = match reply->Download_0 {
        Ok(a) => Ok(&a),
        Err(e) => Err(e),
    };
    assert(attach::find_post(before.document, found, message_id, file@));
    carrying::file_is_found_by_its_name(before.document, found, message_id, file@, i, k);
}

/// A recipient that the store is told to take in comes last and is asked for its key.
pub proof fn told_recipient_is_asked_for_its_key(
    before: ConversationDocument,
    after: ConversationDocument,
    r: Result<Effects, Error>,
    own: Did,
    did: Did,
    blocked: bool,
)
    requires
        store::add_recipient_post(before, after, r, own, did, blocked),
    ensures
        r is Ok <==> {
            &&& before.conversation_type is Group
            &&& before.creator is Some
            &&& before.creator == Some(own) || before.permits(own, GroupPermission::AddParticipants)
            &&& before.creator != Some(did)
            &&& !blocked
            &&& !before.restrict@.contains(did)
            &&& !before.recipients@.contains(did)
        },
        r is Err ==> after == before,
        r is Ok ==> {
            &&& after.recipients@ == before.recipients@.push(did)
            &&& after == (ConversationDocument { recipients: after.recipients, ..before })
            &&& r->Ok_0.request_key == Some(did)
            &&& r->Ok_0.ping is None
            &&& r->Ok_0.save
            &&& r->Ok_0.event == Some(
                MessageEventKind::RecipientAdded { conversation_id: before.id, recipient: did },
            )
        },
{
    let asked = match r {
        Ok(effects) => Ok::<Effects, Error>(
            Effects { request_key: None, ..effects },
        ),
        Err(e) => Err(e),
    };
    acts::newcomer_is_taken_in(before, after, asked, own, did, blocked);
}

/// Without a keystore a message is refused for its lines first, and for the keystore then.
pub proof fn keyless_message_is_refused(lines: Seq<String>, limits: Limits)
    ensures
        lines.len() == 0 ==> store::keyless_refusal(lines, limits) == Error::EmptyMessage,
        store::keyless_refusal(lines, limits) == Error::OtherWithContext(Reason::KeystoreMissing)
            <==> lines.len() > 0 && 1 <= crate::text::measured_length(lines)
            <= limits.max_message_size,
{
}

/// A group lacks its keystore where none is stored beside it; a direct conversation needs none.
pub proof fn only_groups_lack_keystores(inner: ConversationInner, id: Uuid, i: int)
    requires
        store::distinct_conversations(inner.conversations@),
        0 <= i < inner.conversations@.len(),
        inner.conversations@[i].id == id,
    ensures
        exchange::is_keyless(inner, id) <==> inner.conversations@[i].conversation_type is Group
            && forall|k: int|
            0 <= k < inner.keystores@.len() ==> (#[trigger] inner.keystores@[k]).id != id,
{
    comings::conversation_is_found_at_its_place(inner.conversations@, id, i);
    if exists|k: int| 0 <= k < inner.keystores@.len() && (#[trigger] inner.keystores@[k]).id == id {
        let k = choose|k: int|
            0 <= k < inner.keystores@.len() && (#[trigger] inner.keystores@[k]).id == id;
        lemma_keystore(inner.keystores@, id, k);
    } else {
        comings::keystore_stands_beside_its_group(inner.keystores@, id, 0);
    }
}

proof fn lemma_keystore(entries: Seq<StoredKeystore>, id: Uuid, k: int)
    requires
        0 <= k < entries.len(),
        entries[k].id == id,
    ensures
        lifecycle::keystore_of(entries, id) is Some,
    decreases entries.len(),
{
    if k < entries.len() - 1 {
        lemma_keystore(entries.drop_last(), id, k);
    }
}

/// The own signature is put under a group of the own identity, and under nothing else.
pub proof fn creator_signs_its_group(doc: ConversationDocument, own: Did)
    ensures
        doc.spec_needs_signature(own) <==> doc.conversation_type is Group && doc.creator == Some(
            own,
        ),
{
}

} // verus!
