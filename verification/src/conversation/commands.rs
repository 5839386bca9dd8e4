//! What the task of a conversation is told to do.
use vstd::prelude::*;
use crate::error::Error;
use crate::ids::{Cid, Did, Timestamp, Uuid};
use crate::ordered::{self, dids_swap_remove};
use super::attach::{self, Attaching, Location};
use super::chat;
use super::document::{self, copy_messages, ConversationDocument};
use super::incoming::{self, Keeper, MessagingEvents};
use super::info::{self, ImageDag, ImageSource};
use super::members::{self, GroupPermissionOpt};
use super::message::{self, Attachment, Message};
use super::task::{self, ConversationTask};
use super::{
    ConversationImageType, Effects, MessageEvent, MessageStatus, Outgoing, PinState,
    RayGunEventKind, ReactionState,
};

verus! {

/// The task, with what `add_participant` does to it.
pub open spec fn add_participant_post(
    before: ConversationTask,
    after: ConversationTask,
    r: Result<Effects, Error>,
    did: Did,
    blocked: bool,
) -> bool {
    let asked = match r {
        Ok(effects) => Ok::<Effects, Error>(Effects { ping: None, ..effects }),
        Err(e) => Err(e),
    };
    &&& members::add_participant_post(
        before.document,
        after.document,
        asked,
        before.own,
        did,
        blocked,
    )
    &&& match r {
        Ok(effects) => effects.ping == Some(did),
        Err(_) => true,
    }
    &&& after == (ConversationTask { document: after.document, ..before })
}

/// The task, with what happens to it around the removal of a member: nothing is expected of the
/// member any more.
pub open spec fn is_unpinged(before: ConversationTask, after: ConversationTask, did: Did) -> bool {
    &&& after == (ConversationTask {
        document: after.document,
        pending_ping_response: after.pending_ping_response,
        ..before
    })
    &&& ordered::did_values(after.pending_ping_response) == ordered::set_swap_removed(
        ordered::did_values(before.pending_ping_response),
        did,
    )
}

/// The task, with what `remove_participant` does to it.
pub open spec fn remove_participant_post(
    before: ConversationTask,
    after: ConversationTask,
    r: Result<Effects, Error>,
    did: Did,
    broadcast: bool,
) -> bool {
    &&& members::remove_participant_post(
        before.document,
        after.document,
        r,
        before.own,
        did,
        broadcast,
    )
    &&& match r {
        Ok(_) => is_unpinged(before, after, did),
        Err(_) => after == before,
    }
}

/// The task, with what `add_exclusion` does to it.
pub open spec fn add_exclusion_post(
    before: ConversationTask,
    after: ConversationTask,
    r: Result<Effects, Error>,
    member: Did,
    signature: String,
    genuine: bool,
) -> bool {
    &&& members::add_exclusion_post(
        before.document,
        after.document,
        r,
        before.own,
        member,
        signature,
        genuine,
    )
    &&& match r {
        Ok(_) => if before.document.is_creator(before.own) {
            is_unpinged(before, after, member)
        } else {
            after == (ConversationTask { document: after.document, ..before })
        },
        Err(_) => after == before,
    }
}

impl ConversationTask {
    /// Sends a message.
    pub fn send_message(
        &mut self,
        id: Uuid,
        date: Timestamp,
        lines: Vec<String>,
    ) -> (r: Result<Effects, Error>)
        ensures
            chat::send_message_post(
                old(self).document,
                final(self).document,
                r,
                old(self).own,
                id,
                date,
                lines,
                old(self).limits,
            ),
            *final(self) == (ConversationTask { document: final(self).document, ..*old(self) }),
            old(self).well_formed() ==> final(self).well_formed(),
    {
        self.document.send_message(self.own, id, date, lines, self.limits)
    }

    /// Sends an answer to a message.
    pub fn reply_message(
        &mut self,
        id: Uuid,
        date: Timestamp,
        replied: Uuid,
        lines: Vec<String>,
    ) -> (r: Result<Effects, Error>)
        ensures
            chat::reply_message_post(
                old(self).document,
                final(self).document,
                r,
                old(self).own,
                id,
                date,
                replied,
                lines,
                old(self).limits,
            ),
            *final(self) == (ConversationTask { document: final(self).document, ..*old(self) }),
            old(self).well_formed() ==> final(self).well_formed(),
    {
        self.document.reply_message(self.own, id, date, replied, lines, self.limits)
    }

    /// Puts other lines into an own message.
    pub fn edit_message(
        &mut self,
        id: Uuid,
        lines: Vec<String>,
        now: Timestamp,
    ) -> (r: Result<Effects, Error>)
        ensures
            chat::edit_message_post(
                old(self).document,
                final(self).document,
                r,
                old(self).own,
                id,
                lines,
                now,
                old(self).limits,
            ),
            *final(self) == (ConversationTask { document: final(self).document, ..*old(self) }),
            old(self).well_formed() ==> final(self).well_formed(),
    {
        self.document.edit_message(self.own, id, lines, now, self.limits)
    }

    /// Deletes a message, for the other members too where `broadcast` is set.
    pub fn delete_message(&mut self, id: Uuid, broadcast: bool) -> (r: Result<Effects, Error>)
        ensures
            chat::delete_message_post(old(self).document, final(self).document, r, id, broadcast),
            *final(self) == (ConversationTask { document: final(self).document, ..*old(self) }),
            old(self).well_formed() ==> final(self).well_formed(),
    {
        self.document.delete_message(id, broadcast)
    }

    /// Pins or unpins a message.
    pub fn pin_message(&mut self, id: Uuid, state: PinState) -> (r: Result<Effects, Error>)
        ensures
            chat::pin_message_post(
                old(self).document,
                final(self).document,
                r,
                old(self).own,
                id,
                state,
            ),
            *final(self) == (ConversationTask { document: final(self).document, ..*old(self) }),
            old(self).well_formed() ==> final(self).well_formed(),
    {
        self.document.pin_message(self.own, id, state)
    }

    /// Adds an own reaction to a message or takes it back.
    pub fn react(
        &mut self,
        id: Uuid,
        state: ReactionState,
        emoji: String,
    ) -> (r: Result<Effects, Error>)
        ensures
            chat::react_post(
                old(self).document,
                final(self).document,
                r,
                old(self).own,
                id,
                state,
                emoji,
                old(self).limits,
            ),
            *final(self) == (ConversationTask { document: final(self).document, ..*old(self) }),
            old(self).well_formed() ==> final(self).well_formed(),
    {
        self.document.react(self.own, id, state, emoji, self.limits)
    }

    /// Puts in a message whose files are stored.
    pub fn store_direct_for_attachment(&mut self, message: Message) -> (r: Result<Effects, Error>)
        ensures
            chat::store_message_post(old(self).document, final(self).document, r, message),
            *final(self) == (ConversationTask { document: final(self).document, ..*old(self) }),
            old(self).well_formed() ==> final(self).well_formed(),
    {
        self.document.store_message(message)
    }

    /// Keeps a blocked identity out.
    pub fn add_restricted(&mut self, did: Did, blocked: bool) -> (r: Result<Effects, Error>)
        ensures
            members::add_restricted_post(
                old(self).document,
                final(self).document,
                r,
                old(self).own,
                did,
                blocked,
            ),
            *final(self) == (ConversationTask { document: final(self).document, ..*old(self) }),
            old(self).well_formed() ==> final(self).well_formed(),
    {
        self.document.add_restricted(self.own, did, blocked)
    }

    /// No longer keeps an identity out.
    pub fn remove_restricted(&mut self, did: Did, blocked: bool) -> (r: Result<Effects, Error>)
        ensures
            members::remove_restricted_post(
                old(self).document,
                final(self).document,
                r,
                old(self).own,
                did,
                blocked,
            ),
            *final(self) == (ConversationTask { document: final(self).document, ..*old(self) }),
            old(self).well_formed() ==> final(self).well_formed(),
    {
        self.document.remove_restricted(self.own, did, blocked)
    }

    /// Changes the permissions.
    pub fn update_conversation_permissions(
        &mut self,
        permissions: GroupPermissionOpt,
    ) -> (r: Result<Effects, Error>)
        ensures
            members::update_permissions_post(
                old(self).document,
                final(self).document,
                r,
                old(self).own,
                permissions,
            ),
            *final(self) == (ConversationTask { document: final(self).document, ..*old(self) }),
            old(self).well_formed() ==> final(self).well_formed(),
    {
        self.document.update_permissions(self.own, permissions)
    }

    /// Names a group.
    pub fn update_conversation_name(&mut self, name: &str) -> (r: Result<Effects, Error>)
        ensures
            info::update_name_post(
                old(self).document,
                final(self).document,
                r,
                old(self).own,
                name@,
            ),
            *final(self) == (ConversationTask { document: final(self).document, ..*old(self) }),
            old(self).well_formed() ==> final(self).well_formed(),
    {
        self.document.update_name(self.own, name)
    }

    /// Describes the conversation.
    pub fn set_description(&mut self, description: Option<String>) -> (r: Result<Effects, Error>)
        ensures
            info::set_description_post(
                old(self).document,
                final(self).document,
                r,
                old(self).own,
                description,
                old(self).limits,
            ),
            *final(self) == (ConversationTask { document: final(self).document, ..*old(self) }),
            old(self).well_formed() ==> final(self).well_formed(),
    {
        self.document.set_description(self.own, description, self.limits)
    }

    /// Refers to an image that was prepared from `source` and stored as `cid`, unless it is refused.
    pub fn update_conversation_image(
        &mut self,
        image_type: ConversationImageType,
        source: &ImageSource,
        cid: Cid,
    ) -> (r: Result<Effects, Error>)
        ensures
            info::update_conversation_image_post(
                old(self).document,
                final(self).document,
                r,
                old(self).own,
                image_type,
                *source,
                cid,
                old(self).limits,
                Keeper::Task,
            ),
            *final(self) == (ConversationTask { document: final(self).document, ..*old(self) }),
            old(self).well_formed() ==> final(self).well_formed(),
    {
        self.document.update_conversation_image(
            self.own,
            image_type,
            source,
            cid,
            self.limits,
            Keeper::Task,
        )
    }

    /// Takes an image away.
    pub fn remove_conversation_image(
        &mut self,
        image_type: ConversationImageType,
    ) -> (r: Result<Effects, Error>)
        ensures
            info::remove_conversation_image_post(
                old(self).document,
                final(self).document,
                r,
                old(self).own,
                image_type,
            ),
            *final(self) == (ConversationTask { document: final(self).document, ..*old(self) }),
            old(self).well_formed() ==> final(self).well_formed(),
    {
        self.document.remove_conversation_image(self.own, image_type)
    }

    /// Files the conversation away.
    pub fn archived_conversation(&mut self) -> (r: Option<RayGunEventKind>)
        ensures
            info::archived_conversation_post(old(self).document, final(self).document, r),
            *final(self) == (ConversationTask { document: final(self).document, ..*old(self) }),
            old(self).well_formed() ==> final(self).well_formed(),
    {
        self.document.archived_conversation()
    }

    /// Takes the conversation back from the archive.
    pub fn unarchived_conversation(&mut self) -> (r: Option<RayGunEventKind>)
        ensures
            info::unarchived_conversation_post(old(self).document, final(self).document, r),
            *final(self) == (ConversationTask { document: final(self).document, ..*old(self) }),
            old(self).well_formed() ==> final(self).well_formed(),
    {
        self.document.unarchived_conversation()
    }

    /// Takes an event of another member.
    pub fn message_event(
        &mut self,
        sender: Did,
        event: MessagingEvents,
        genuine: bool,
    ) -> (r: Result<Effects, Error>)
        ensures
            incoming::message_event_post(
                old(self).document,
                final(self).document,
                r,
                old(self).own,
                sender,
                event,
                genuine,
                Keeper::Task,
                old(self).limits,
            ),
            *final(self) == (ConversationTask { document: final(self).document, ..*old(self) }),
            old(self).well_formed() ==> final(self).well_formed(),
    {
        self.document.message_event(
            self.own,
            sender,
            event,
            genuine,
            Keeper::Task,
            self.limits,
        )
    }

    /// Takes a member in. It is asked for a sign of life.
    pub fn add_participant(&mut self, did: Did, blocked: bool) -> (r: Result<Effects, Error>)
        ensures
            add_participant_post(*old(self), *final(self), r, did, blocked),
            old(self).well_formed() ==> final(self).well_formed(),
    {
        match self.document.add_participant(self.own, did, blocked) {
            Ok(effects) => {
                let mut effects = effects;
                effects.ping = Some(did);
                Ok(effects)
            },
            Err(e) => Err(e),
        }
    }

    /// Takes a member out, and tells it so where `broadcast` is set.
    pub fn remove_participant(&mut self, did: Did, broadcast: bool) -> (r: Result<Effects, Error>)
        ensures
            remove_participant_post(*old(self), *final(self), r, did, broadcast),
            old(self).well_formed() ==> final(self).well_formed(),
    {
        match self.document.remove_participant(self.own, did, broadcast) {
            Ok(effects) => {
                dids_swap_remove(&mut self.pending_ping_response, did);
                Ok(effects)
            },
            Err(e) => Err(e),
        }
    }

    /// Notes that a member leaves.
    pub fn add_exclusion(&mut self, member: Did, signature: String, genuine: bool) -> (r: Result<
        Effects,
        Error,
    >)
        ensures
            add_exclusion_post(*old(self), *final(self), r, member, signature, genuine),
            old(self).well_formed() ==> final(self).well_formed(),
    {
        let creator: bool = match self.document.creator {
            Some(creator) => creator == self.own,
            None => false,
        };
        match self.document.add_exclusion(self.own, member, signature, genuine) {
            Ok(effects) => {
                if creator {
                    dids_swap_remove(&mut self.pending_ping_response, member);
                }
                Ok(effects)
            },
            Err(e) => Err(e),
        }
    }
}

/// What the task of a conversation is told to do. What only the node knows comes with it: whether
/// an identity is blocked, a new identifier, the time, what a directory holds.
#[allow(inconsistent_fields)]
pub enum ConversationTaskCommand {
    SetDescription { description: Option<String> },
    FavoriteConversation { favorite: bool },
    GetMessage { message_id: Uuid },
    GetMessages,
    GetMessagesCount,
    GetMessageReference { message_id: Uuid },
    GetMessageReferences,
    UpdateConversationName { name: String },
    UpdateConversationPermissions { permissions: GroupPermissionOpt },
    AddParticipant { member: Did, blocked: bool },
    RemoveParticipant { member: Did, broadcast: bool },
    MessageStatus { message_id: Uuid },
    SendMessage { id: Uuid, date: Timestamp, lines: Vec<String> },
    EditMessage { message_id: Uuid, lines: Vec<String>, now: Timestamp },
    ReplyMessage { id: Uuid, date: Timestamp, message_id: Uuid, lines: Vec<String> },
    DeleteMessage { message_id: Uuid },
    PinMessage { message_id: Uuid, state: PinState },
    ReactMessage { message_id: Uuid, state: ReactionState, emoji: String },
    /// `message_id` is the message that is replied to.
    AttachMessage {
        id: Uuid,
        message_id: Option<Uuid>,
        locations: Vec<Location>,
        lines: Vec<String>,
        items: Vec<String>,
    },
    DownloadAttachment { message_id: Uuid, file: String },
    DownloadAttachmentStream { message_id: Uuid, file: String },
    SendEvent { event: MessageEvent },
    CancelEvent { event: MessageEvent },
    UpdateIcon { source: ImageSource },
    UpdateBanner { source: ImageSource },
    RemoveIcon,
    RemoveBanner,
    GetIcon,
    GetBanner,
    ArchivedConversation,
    UnarchivedConversation,
    AddExclusion { member: Did, signature: String, genuine: bool },
    AddRestricted { member: Did, blocked: bool },
    RemoveRestricted { member: Did, blocked: bool },
    EventHandler,
}

/// What a command is answered.
pub enum TaskReply {
    /// A change, and what is left to do.
    Changed(Result<Effects, Error>),
    /// The document was changed and has to be stored. Holds what the subscribers of the store are
    /// told.
    Filed(Option<RayGunEventKind>),
    Message(Result<Message, Error>),
    Messages(Result<Vec<Message>, Error>),
    Count(usize),
    Status(Result<MessageStatus, Error>),
    Attachments(Result<Attaching, Error>),
    /// A file that is to be downloaded.
    Download(Result<Attachment, Error>),
    Activity(Result<Outgoing, Error>),
    PreparedImage(Result<ImageDag, Error>),
    Image(Result<Cid, Error>),
    /// The subscribers get one more.
    Subscription,
}

/// A message as it is read, or why there is none.
pub open spec fn is_read(
    messages: Seq<Message>,
    message_id: Uuid,
    r: Result<Message, Error>,
) -> bool {
    match r {
        Ok(m) => document::has_message(messages, message_id) && message::same_message(
            m,
            messages[document::message_index(messages, message_id)],
        ),
        Err(e) => !document::has_message(messages, message_id) && e == Error::MessageNotFound,
    }
}

/// What `ConversationTask::get_message` returns.
pub open spec fn get_message_post(
    task: ConversationTask,
    r: Result<Message, Error>,
    message_id: Uuid,
) -> bool {
    match task.document.key_refusal(task.own) {
        Some(e) => r == Err::<Message, Error>(e),
        None => is_read(task.document.messages@, message_id, r),
    }
}

/// What `ConversationTask::download` returns.
pub open spec fn download_post(
    doc: ConversationDocument,
    r: Result<Attachment, Error>,
    message_id: Uuid,
    file: Seq<char>,
) -> bool {
    attach::find_post(
        doc,
        match r {
            Ok(a) => Ok(&a),
            Err(e) => Err(e),
        },
        message_id,
        file,
    )
}

/// What storing a new image in a conversation begins with.
pub open spec fn update_image_post(
    before: ConversationTask,
    after: ConversationTask,
    reply: TaskReply,
    image_type: ConversationImageType,
    source: ImageSource,
) -> bool {
    &&& after == before
    &&& reply matches TaskReply::PreparedImage(r)
    &&& info::prepare_image_post(
        before.document,
        r,
        before.own,
        image_type,
        source,
        before.limits,
        Keeper::Task,
    )
}

/// What taking an image away does.
pub open spec fn remove_image_post(
    before: ConversationTask,
    after: ConversationTask,
    reply: TaskReply,
    image_type: ConversationImageType,
) -> bool {
    &&& after == (ConversationTask { document: after.document, ..before })
    &&& reply matches TaskReply::Changed(r)
    &&& info::remove_conversation_image_post(
        before.document,
        after.document,
        r,
        before.own,
        image_type,
    )
}

/// The reference to an image of a conversation.
pub open spec fn image_reply(doc: ConversationDocument, image_type: ConversationImageType) -> TaskReply {
    TaskReply::Image(
        match doc.image(image_type) {
            Some(cid) => Ok(cid),
            None => Err(Error::Other),
        },
    )
}

/// What a command does and is answered.
pub open spec fn process_command_post(
    before: ConversationTask,
    after: ConversationTask,
    reply: TaskReply,
    command: ConversationTaskCommand,
) -> bool {
    let own = before.own;
    let limits = before.limits;
    let only_document = after == (ConversationTask { document: after.document, ..before });
    match command {
        ConversationTaskCommand::SetDescription { description } => {
            &&& only_document
            &&& reply matches TaskReply::Changed(r)
            &&& info::set_description_post(
                before.document,
                after.document,
                r,
                own,
                description,
                limits,
            )
        },
        ConversationTaskCommand::FavoriteConversation { favorite } => {
            &&& reply == TaskReply::Filed(None)
            &&& after == (ConversationTask {
                document: document::ConversationDocument { favorite, ..before.document },
                ..before
            })
        },
        ConversationTaskCommand::GetMessage { message_id } => {
            &&& after == before
            &&& reply matches TaskReply::Message(r)
            &&& get_message_post(before, r, message_id)
        },
        ConversationTaskCommand::GetMessages => {
            &&& after == before
            &&& reply matches TaskReply::Messages(r)
            &&& match before.document.key_refusal(own) {
                Some(e) => r == Err::<Vec<Message>, Error>(e),
                None => r matches Ok(list) && document::same_messages(
                    list@,
                    before.document.messages@,
                ),
            }
        },
        ConversationTaskCommand::GetMessageReference { message_id } => {
            &&& after == before
            &&& reply matches TaskReply::Message(r)
            &&& is_read(before.document.messages@, message_id, r)
        },
        ConversationTaskCommand::GetMessageReferences => {
            &&& after == before
            &&& reply matches TaskReply::Messages(Ok(list))
            &&& document::same_messages(list@, before.document.messages@)
        },
        ConversationTaskCommand::GetMessagesCount => after == before && reply == TaskReply::Count(
            before.document.messages@.len() as usize,
        ),
        ConversationTaskCommand::UpdateConversationName { name } => {
            &&& only_document
            &&& reply matches TaskReply::Changed(r)
            &&& info::update_name_post(before.document, after.document, r, own, name@)
        },
        ConversationTaskCommand::UpdateConversationPermissions { permissions } => {
            &&& only_document
            &&& reply matches TaskReply::Changed(r)
            &&& members::update_permissions_post(
                before.document,
                after.document,
                r,
                own,
                permissions,
            )
        },
        ConversationTaskCommand::AddParticipant { member, blocked } => reply matches
            TaskReply::Changed(r) && add_participant_post(before, after, r, member, blocked),
        ConversationTaskCommand::RemoveParticipant { member, broadcast } => reply matches
            TaskReply::Changed(r) && remove_participant_post(before, after, r, member, broadcast),
        ConversationTaskCommand::MessageStatus { message_id } => {
            &&& after == before
            &&& reply == TaskReply::Status(
                if before.document.conversation_type is Group {
                    Err(Error::Unimplemented)
                } else if !document::has_message(before.document.messages@, message_id) {
                    Err(Error::MessageNotFound)
                } else {
                    Ok(MessageStatus::Sent)
                },
            )
        },
        ConversationTaskCommand::SendMessage { id, date, lines } => {
            &&& only_document
            &&& reply matches TaskReply::Changed(r)
            &&& chat::send_message_post(
                before.document,
                after.document,
                r,
                own,
                id,
                date,
                lines,
                limits,
            )
        },
        ConversationTaskCommand::EditMessage { message_id, lines, now } => {
            &&& only_document
            &&& reply matches TaskReply::Changed(r)
            &&& chat::edit_message_post(
                before.document,
                after.document,
                r,
                own,
                message_id,
                lines,
                now,
                limits,
            )
        },
        ConversationTaskCommand::ReplyMessage { id, date, message_id, lines } => {
            &&& only_document
            &&& reply matches TaskReply::Changed(r)
            &&& chat::reply_message_post(
                before.document,
                after.document,
                r,
                own,
                id,
                date,
                message_id,
                lines,
                limits,
            )
        },
        ConversationTaskCommand::DeleteMessage { message_id } => {
            &&& only_document
            &&& reply matches TaskReply::Changed(r)
            &&& chat::delete_message_post(
                before.document,
                after.document,
                r,
                message_id,
                true,
            )
        },
        ConversationTaskCommand::PinMessage { message_id, state } => {
            &&& only_document
            &&& reply matches TaskReply::Changed(r)
            &&& chat::pin_message_post(
                before.document,
                after.document,
                r,
                own,
                message_id,
                state,
            )
        },
        ConversationTaskCommand::ReactMessage { message_id, state, emoji } => {
            &&& only_document
            &&& reply matches TaskReply::Changed(r)
            &&& chat::react_post(
                before.document,
                after.document,
                r,
                own,
                message_id,
                state,
                emoji,
                limits,
            )
        },
        ConversationTaskCommand::AttachMessage { id, message_id, locations, lines, items } => {
            &&& after == before
            &&& reply matches TaskReply::Attachments(r)
            &&& attach::attach_post(
                before.document,
                r,
                own,
                id,
                message_id,
                locations@,
                lines,
                items@,
                limits,
            )
        },
        ConversationTaskCommand::DownloadAttachment { message_id, file } => {
            &&& after == before
            &&& reply matches TaskReply::Download(r)
            &&& download_post(before.document, r, message_id, file@)
        },
        ConversationTaskCommand::DownloadAttachmentStream { message_id, file } => {
            &&& after == before
            &&& reply matches TaskReply::Download(r)
            &&& download_post(before.document, r, message_id, file@)
        },
        ConversationTaskCommand::SendEvent { event } => {
            &&& after == before
            &&& reply matches TaskReply::Activity(r)
            &&& task::activity_post(before, r, event, false)
        },
        ConversationTaskCommand::CancelEvent { event } => {
            &&& after == before
            &&& reply matches TaskReply::Activity(r)
            &&& task::activity_post(before, r, event, true)
        },
        ConversationTaskCommand::UpdateIcon { source } => update_image_post(
            before,
            after,
            reply,
            ConversationImageType::Icon,
            source,
        ),
        ConversationTaskCommand::UpdateBanner { source } => update_image_post(
            before,
            after,
            reply,
            ConversationImageType::Banner,
            source,
        ),
        ConversationTaskCommand::RemoveIcon => remove_image_post(
            before,
            after,
            reply,
            ConversationImageType::Icon,
        ),
        ConversationTaskCommand::RemoveBanner => remove_image_post(
            before,
            after,
            reply,
            ConversationImageType::Banner,
        ),
        ConversationTaskCommand::GetIcon => after == before && reply == image_reply(
            before.document,
            ConversationImageType::Icon,
        ),
        ConversationTaskCommand::GetBanner => after == before && reply == image_reply(
            before.document,
            ConversationImageType::Banner,
        ),
        ConversationTaskCommand::ArchivedConversation => {
            &&& only_document
            &&& reply matches TaskReply::Filed(r)
            &&& info::archived_conversation_post(
                before.document,
                after.document,
                r,
            )
        },
        ConversationTaskCommand::UnarchivedConversation => {
            &&& only_document
            &&& reply matches TaskReply::Filed(r)
            &&& info::unarchived_conversation_post(
                before.document,
                after.document,
                r,
            )
        },
        ConversationTaskCommand::AddExclusion { member, signature, genuine } => reply matches
            TaskReply::Changed(r) && add_exclusion_post(
            before,
            after,
            r,
            member,
            signature,
            genuine,
        ),
        ConversationTaskCommand::AddRestricted { member, blocked } => {
            &&& only_document
            &&& reply matches TaskReply::Changed(r)
            &&& members::add_restricted_post(
                before.document,
                after.document,
                r,
                own,
                member,
                blocked,
            )
        },
        ConversationTaskCommand::RemoveRestricted { member, blocked } => {
            &&& only_document
            &&& reply matches TaskReply::Changed(r)
            &&& members::remove_restricted_post(
                before.document,
                after.document,
                r,
                own,
                member,
                blocked,
            )
        },
        ConversationTaskCommand::EventHandler => after == before && reply
            == TaskReply::Subscription,
    }
}

impl ConversationTask {
    /// A message, where it can be read.
    pub fn get_message(&self, message_id: Uuid) -> (r: Result<Message, Error>)
        ensures
            get_message_post(*self, r, message_id),
    {
        match self.document.check_key(self.own) {
            Err(e) => return Err(e),
            Ok(()) => {},
        }
        match self.document.get_message(message_id) {
            Ok(m) => Ok(m.copy()),
            Err(e) => Err(e),
        }
    }

    /// A file of a message, to be downloaded.
    pub fn download(&self, message_id: Uuid, file: &str) -> (r: Result<Attachment, Error>)
        ensures
            download_post(self.document, r, message_id, file@),
    {
        match self.document.find_attachment(message_id, file) {
            Ok(a) => Ok(a.copy()),
            Err(e) => Err(e),
        }
    }

    /// Does what the task is told to do.
    pub fn process_command(&mut self, command: ConversationTaskCommand) -> (r: TaskReply)
        ensures
            process_command_post(*old(self), *final(self), r, command),
            old(self).well_formed() ==> final(self).well_formed(),
    {
        match command {
            ConversationTaskCommand::SetDescription { description } => TaskReply::Changed(
                self.set_description(description),
            ),
            ConversationTaskCommand::FavoriteConversation { favorite } => {
                self.document.set_favorite_conversation(favorite);
                TaskReply::Filed(None)
            },
            ConversationTaskCommand::GetMessage { message_id } => TaskReply::Message(
                self.get_message(message_id),
            ),
            ConversationTaskCommand::GetMessages => TaskReply::Messages(
                match self.get_messages() {
                    Ok(list) => Ok(copy_messages(list)),
                    Err(e) => Err(e),
                },
            ),
            ConversationTaskCommand::GetMessagesCount => TaskReply::Count(
                self.document.messages_count(),
            ),
            ConversationTaskCommand::GetMessageReference { message_id } => TaskReply::Message(
                match self.get_message_reference(message_id) {
                    Ok(m) => Ok(m.copy()),
                    Err(e) => Err(e),
                },
            ),
            ConversationTaskCommand::GetMessageReferences => TaskReply::Messages(
                Ok(copy_messages(&self.document.messages)),
            ),
            ConversationTaskCommand::UpdateConversationName { name } => TaskReply::Changed(
                self.update_conversation_name(name.as_str()),
            ),
            ConversationTaskCommand::UpdateConversationPermissions { permissions } =>
                TaskReply::Changed(self.update_conversation_permissions(permissions)),
            ConversationTaskCommand::AddParticipant { member, blocked } => TaskReply::Changed(
                self.add_participant(member, blocked),
            ),
            ConversationTaskCommand::RemoveParticipant { member, broadcast } => TaskReply::Changed(
                self.remove_participant(member, broadcast),
            ),
            ConversationTaskCommand::MessageStatus { message_id } => TaskReply::Status(
                self.message_status(message_id),
            ),
            ConversationTaskCommand::SendMessage { id, date, lines } => TaskReply::Changed(
                self.send_message(id, date, lines),
            ),
            ConversationTaskCommand::EditMessage { message_id, lines, now } => TaskReply::Changed(
                self.edit_message(message_id, lines, now),
            ),
            ConversationTaskCommand::ReplyMessage { id, date, message_id, lines } =>
                TaskReply::Changed(self.reply_message(id, date, message_id, lines)),
            ConversationTaskCommand::DeleteMessage { message_id } => TaskReply::Changed(
                self.delete_message(message_id, true),
            ),
            ConversationTaskCommand::PinMessage { message_id, state } => TaskReply::Changed(
                self.pin_message(message_id, state),
            ),
            ConversationTaskCommand::ReactMessage { message_id, state, emoji } =>
                TaskReply::Changed(self.react(message_id, state, emoji)),
            ConversationTaskCommand::AttachMessage { id, message_id, locations, lines, items } =>
                TaskReply::Attachments(
                self.document.attach(
                    self.own,
                    id,
                    message_id,
                    locations,
                    lines,
                    &items,
                    self.limits,
                ),
            ),
            ConversationTaskCommand::DownloadAttachment { message_id, file } =>
                TaskReply::Download(self.download(message_id, file.as_str())),
            ConversationTaskCommand::DownloadAttachmentStream { message_id, file } =>
                TaskReply::Download(self.download(message_id, file.as_str())),
            ConversationTaskCommand::SendEvent { event } => TaskReply::Activity(
                self.send_event(event),
            ),
            ConversationTaskCommand::CancelEvent { event } => TaskReply::Activity(
                self.cancel_event(event),
            ),
            ConversationTaskCommand::UpdateIcon { source } => self.prepare_image(
                ConversationImageType::Icon,
                source,
            ),
            ConversationTaskCommand::UpdateBanner { source } => self.prepare_image(
                ConversationImageType::Banner,
                source,
            ),
            ConversationTaskCommand::RemoveIcon => TaskReply::Changed(
                self.remove_conversation_image(ConversationImageType::Icon),
            ),
            ConversationTaskCommand::RemoveBanner => TaskReply::Changed(
                self.remove_conversation_image(ConversationImageType::Banner),
            ),
            ConversationTaskCommand::GetIcon => TaskReply::Image(
                self.document.conversation_image(ConversationImageType::Icon),
            ),
            ConversationTaskCommand::GetBanner => TaskReply::Image(
                self.document.conversation_image(ConversationImageType::Banner),
            ),
            ConversationTaskCommand::ArchivedConversation => TaskReply::Filed(
                self.archived_conversation(),
            ),
            ConversationTaskCommand::UnarchivedConversation => TaskReply::Filed(
                self.unarchived_conversation(),
            ),
            ConversationTaskCommand::AddExclusion { member, signature, genuine } =>
                TaskReply::Changed(self.add_exclusion(member, signature, genuine)),
            ConversationTaskCommand::AddRestricted { member, blocked } => TaskReply::Changed(
                self.add_restricted(member, blocked),
            ),
            ConversationTaskCommand::RemoveRestricted { member, blocked } => TaskReply::Changed(
                self.remove_restricted(member, blocked),
            ),
            ConversationTaskCommand::EventHandler => TaskReply::Subscription,
        }
    }

    fn prepare_image(&self, image_type: ConversationImageType, source: ImageSource) -> (r:
        TaskReply)
        ensures
            update_image_post(*self, *self, r, image_type, source),
    {
        TaskReply::PreparedImage(
            self.document.prepare_image(
                self.own,
                image_type,
                &source,
                self.limits,
                Keeper::Task,
            ),
        )
    }
}

} // verus!
