//! Conversations: their documents, the messages in them, and the rules by which they change.
use vstd::prelude::*;
use crate::ids::{Did, Timestamp, Uuid};

pub mod acts;
pub mod attach;
pub mod carrying;
pub mod chat;
pub mod comings;
pub mod commands;
pub mod document;
pub mod exchange;
pub mod files;
pub mod identities;
pub mod incoming;
pub mod info;
pub mod keys;
pub mod laws;
pub mod lifecycle;
pub mod mailbox;
pub mod members;
pub mod message;
pub mod notices;
pub mod outbox;
pub mod queue;
pub mod reactions;
pub mod received;
pub mod requests;
pub mod schedule;
pub mod store;
pub mod task;
pub mod told;
pub mod trust;
pub mod waiting;

verus! {

#[derive(Clone, Copy, PartialEq, Eq, Structural, Debug)]
pub enum ConversationType {
    Direct,
    Group,
}

#[derive(Clone, Copy, PartialEq, Eq, Structural, Debug)]
pub enum MessageType {
    Message,
    Attachment,
    Event,
}

#[derive(Clone, Copy, PartialEq, Eq, Structural, Debug)]
pub enum PinState {
    Pin,
    Unpin,
}

#[derive(Clone, Copy, PartialEq, Eq, Structural, Debug)]
pub enum ReactionState {
    Add,
    Remove,
}

/// What a member of a group may do besides its creator.
#[derive(Clone, Copy, PartialEq, Eq, Structural, Debug)]
pub enum GroupPermission {
    AddParticipants,
    SetGroupName,
}

/// A sign of activity that is shown and not kept.
#[derive(Clone, Copy, PartialEq, Eq, Structural, Debug)]
pub enum MessageEvent {
    Typing,
}

#[derive(Clone, Copy, PartialEq, Eq, Structural, Debug)]
pub enum ConversationImageType {
    Icon,
    Banner,
}

#[derive(Clone, Copy, PartialEq, Eq, Structural, Debug)]
pub enum MessageStatus {
    NotSent,
    Sent,
    Delivered,
}

/// A permission of one member.
#[derive(Clone, Copy, PartialEq, Eq, Structural, Debug)]
pub struct Grant {
    pub did: Did,
    pub permission: GroupPermission,
}

/// The sizes that a node is configured with.
#[derive(Clone, Copy, PartialEq, Eq, Structural, Debug)]
pub struct Limits {
    pub min_message_size: usize,
    pub max_message_size: usize,
    pub max_reactions: usize,
    pub max_description: usize,
    pub max_icon_size: usize,
    pub max_banner_size: usize,
}

/// What the subscribers of a conversation or a community are told.
#[allow(inconsistent_fields)]
pub enum MessageEventKind {
    MessageReceived { conversation_id: Uuid, message_id: Uuid },
    MessageSent { conversation_id: Uuid, message_id: Uuid },
    MessageEdited { conversation_id: Uuid, message_id: Uuid },
    MessageDeleted { conversation_id: Uuid, message_id: Uuid },
    MessagePinned { conversation_id: Uuid, message_id: Uuid },
    MessageUnpinned { conversation_id: Uuid, message_id: Uuid },
    MessageReactionAdded { conversation_id: Uuid, message_id: Uuid, did_key: Did, reaction: String },
    MessageReactionRemoved {
        conversation_id: Uuid,
        message_id: Uuid,
        did_key: Did,
        reaction: String,
    },
    RecipientAdded { conversation_id: Uuid, recipient: Did },
    RecipientRemoved { conversation_id: Uuid, recipient: Did },
    ConversationNameUpdated { conversation_id: Uuid, name: String },
    ConversationDescriptionChanged { conversation_id: Uuid, description: Option<String> },
    ConversationPermissionsUpdated {
        conversation_id: Uuid,
        added: Vec<Grant>,
        removed: Vec<Grant>,
    },
    ConversationUpdatedIcon { conversation_id: Uuid },
    ConversationUpdatedBanner { conversation_id: Uuid },
    EventReceived { conversation_id: Uuid, did_key: Did, event: MessageEvent },
    EventCancelled { conversation_id: Uuid, did_key: Did, event: MessageEvent },
    AcceptedCommunityInvite { community_id: Uuid, invite_id: Uuid, user: Did },
}

/// What the subscribers of the whole store are told.
#[allow(inconsistent_fields)]
#[derive(Clone, Copy, PartialEq, Eq, Structural, Debug)]
pub enum RayGunEventKind {
    ConversationCreated { conversation_id: Uuid },
    ConversationDeleted { conversation_id: Uuid },
    ConversationArchived { conversation_id: Uuid },
    ConversationUnarchived { conversation_id: Uuid },
    CommunityCreated { community_id: Uuid },
}

/// What the other members of a conversation are told. A variant that speaks of a message or of the
/// conversation itself goes out with it as the document holds it at that moment.
#[allow(inconsistent_fields)]
pub enum Outgoing {
    New { message_id: Uuid },
    Edit { message_id: Uuid, modified: Timestamp },
    Delete { message_id: Uuid },
    Pin { member: Did, message_id: Uuid, state: PinState },
    React { reactor: Did, message_id: Uuid, state: ReactionState, emoji: String },
    Event { member: Did, event: MessageEvent, cancelled: bool },
    AddParticipant { did: Did },
    RemoveParticipant { did: Did },
    AddRestricted { did: Did },
    RemoveRestricted { did: Did },
    ChangeName { name: Option<String> },
    ChangeDescription { description: Option<String> },
    ChangePermissions,
    AddedIcon,
    AddedBanner,
    RemovedIcon,
    RemovedBanner,
}

/// What a single identity is told, outside the topic of the conversation.
#[derive(Clone, Copy, PartialEq, Eq, Structural, Debug)]
pub enum DirectEvent {
    NewConversation { recipient: Did },
    NewGroupConversation { conversation_id: Uuid },
    DeleteConversation { conversation_id: Uuid },
}

/// What the mailboxes of a conversation are told.
#[derive(Clone, Copy, PartialEq, Eq, Structural, Debug)]
pub enum MailboxCommand {
    InsertMessage { message_id: Uuid },
    RemoveMessage { message_id: Uuid },
    MessageDelivered { message_id: Uuid },
}

/// An event for the other members. One that could not be delivered is queued under `message_id`.
pub struct Publication {
    pub message_id: Option<Uuid>,
    pub event: Outgoing,
}

/// What is left to do after a change of a conversation.
pub struct Effects {
    /// Sign the document where it has to be, check it, and store it.
    pub save: bool,
    /// Tell the subscribers.
    pub event: Option<MessageEventKind>,
    /// Tell the mailboxes.
    pub mailbox: Option<MailboxCommand>,
    /// Tell the other members.
    pub publish: Option<Publication>,
    /// Tell one identity.
    pub direct: Option<(Did, DirectEvent)>,
    /// Ask a member for its key.
    pub request_key: Option<Did>,
    /// Ask a member for a sign of life.
    pub ping: Option<Did>,
    /// Look for an identity in the network, where it is not known there yet.
    pub discover: Option<Did>,
}

impl Effects {
    /// Nothing is left to do.
    pub open spec fn spec_none() -> Effects {
        Effects {
            save: false,
            event: None,
            mailbox: None,
            publish: None,
            direct: None,
            request_key: None,
            ping: None,
            discover: None,
        }
    }

    pub fn none() -> (r: Effects)
        ensures
            r == Effects::spec_none(),
    {
        Effects {
            save: false,
            event: None,
            mailbox: None,
            publish: None,
            direct: None,
            request_key: None,
            ping: None,
            discover: None,
        }
    }
}

} // verus!
