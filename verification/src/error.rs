//! The errors of the library, each with the text that it is shown as.
use vstd::prelude::*;
use crate::ids::{Did, Uuid};

verus! {

/// What an invalid length was measured of.
#[derive(Clone, Copy, PartialEq, Eq, Structural, Debug)]
pub enum LengthOf {
    Message,
    Reactions,
    Name,
    Description,
    Files,
    Image,
}

impl LengthOf {
    /// The name of the measured thing.
    pub open spec fn spec_text(self) -> Seq<char> {
        match self {
            LengthOf::Message => "message"@,
            LengthOf::Reactions => "reactions"@,
            LengthOf::Name => "name"@,
            LengthOf::Description => "description"@,
            LengthOf::Files => "files"@,
            LengthOf::Image => "image"@,
        }
    }

    pub fn text(self) -> (r: &'static str)
        ensures
            r@ == self.spec_text(),
    {
        match self {
            LengthOf::Message => "message",
            LengthOf::Reactions => "reactions",
            LengthOf::Name => "name",
            LengthOf::Description => "description",
            LengthOf::Files => "files",
            LengthOf::Image => "image",
        }
    }
}

/// Reasons for a refusal that have no variant of their own.
#[allow(inconsistent_fields)]
#[derive(Clone, Copy, PartialEq, Eq, Structural, Debug)]
pub enum Reason {
    LeaveOnlyGroup,
    GroupWithoutCreator,
    RemoveCreator,
    NotAMember { member: Did, conversation_id: Uuid },
    UnknownConversation { conversation_id: Uuid },
    DeleteNotAllowed,
    InvalidSignature,
    InvalidReference,
    ReadLimit,
    KeystoreMissing,
    MessageUnavailable,
    NoMailbox,
}

impl Reason {
    pub open spec fn spec_text(self) -> Seq<char> {
        match self {
            Reason::LeaveOnlyGroup => "Can only leave from a group conversation"@,
            Reason::GroupWithoutCreator => "Group conversation requires a creator"@,
            Reason::RemoveCreator => "Cannot remove the creator of the group"@,
            Reason::NotAMember { .. } => "Member does not belong to the conversation"@,
            Reason::UnknownConversation { .. } => "Conversation doesnt exist"@,
            Reason::DeleteNotAllowed => "Conversation exist but did not match condition required"@,
            Reason::InvalidSignature => "Signature is invalid"@,
            Reason::InvalidReference => "invalid reference"@,
            Reason::ReadLimit => "More was read than is allowed"@,
            Reason::KeystoreMissing => "Keystore of the conversation is missing"@,
            Reason::MessageUnavailable => "Message cannot be obtained"@,
            Reason::NoMailbox => "Member has no mailbox in the conversation"@,
        }
    }

    pub fn text(self) -> (r: &'static str)
        ensures
            r@ == self.spec_text(),
    {
        match self {
            Reason::LeaveOnlyGroup => "Can only leave from a group conversation",
            Reason::GroupWithoutCreator => "Group conversation requires a creator",
            Reason::RemoveCreator => "Cannot remove the creator of the group",
            Reason::NotAMember { .. } => "Member does not belong to the conversation",
            Reason::UnknownConversation { .. } => "Conversation doesnt exist",
            Reason::DeleteNotAllowed => "Conversation exist but did not match condition required",
            Reason::InvalidSignature => "Signature is invalid",
            Reason::InvalidReference => "invalid reference",
            Reason::ReadLimit => "More was read than is allowed",
            Reason::KeystoreMissing => "Keystore of the conversation is missing",
            Reason::MessageUnavailable => "Message cannot be obtained",
            Reason::NoMailbox => "Member has no mailbox in the conversation",
        }
    }
}

/// Errors of the modules and utilities.
#[derive(Clone, Copy, PartialEq, Eq, Structural, Debug)]
pub enum Error {
    HookUnregistered,
    DuplicateHook,
    AlreadySubscribed,
    DuplicateName,
    DirParadox,
    DirParentParadox,
    DirInvalid,
    ItemInvalid,
    ItemNotFile,
    ItemNotDirectory,
    InvalidConversion,
    InvalidPath,
    ArrayPositionNotFound,
    DimensionMismatch,
    DataObjectExist,
    DataObjectNotFound,
    InvalidDataType,
    ObjectNotFound,
    InvalidKeyLength,
    FileNotFound,
    DirectoryNotFound,
    ToBeDetermined,
    EncryptionError,
    DecryptionError,
    EncryptionStreamError,
    DecryptionStreamError,
    Unimplemented,
    Other,
    EmptyMessage,
    InvalidMessage,
    MessageNotFound,
    MessageFound,
    InvalidLength {
        context: LengthOf,
        current: usize,
        minimum: Option<usize>,
        maximum: Option<usize>,
    },
    ReactionExist,
    ReactionDoesntExist,
    InvalidConversation,
    CannotCreateConversation,
    ConversationExist { conversation_id: u128 },
    PublicKeyInvalid,
    PublicKeyIsBlocked,
    PublicKeyIsntBlocked,
    PublicKeyDoesntExist,
    IdentityExist,
    IdentityDoesntExist,
    Unauthorized,
    NoAttachments,
    InvalidFile,
    InvalidCommunity,
    CommunityInviteDoesntExist,
    CommunityInviteIncorrectUser,
    CommunityInviteExpired,
    CommunityChannelLimitReached,
    CommunityChannelDoesntExist,
    CommunityRoleDoesntExist,
    OtherWithContext(Reason),
}

impl Error {
    /// The text that an error is shown as.
    pub open spec fn spec_text(self) -> Seq<char> {
        match self {
            Error::HookUnregistered => "Hook is not registered"@,
            Error::DuplicateHook => "Hook with this name already registered"@,
            Error::AlreadySubscribed => "Already subscribed to this hook"@,
            Error::DuplicateName => "Item with name already exists in current directory"@,
            Error::DirParadox => "Directory cannot contain itself"@,
            Error::DirParentParadox => "Directory cannot contain one of its ancestors"@,
            Error::DirInvalid => "Directory cannot be found or is invalid"@,
            Error::ItemInvalid => "Item cannot be found or is invalid"@,
            Error::ItemNotFile => "Item is not a valid file"@,
            Error::ItemNotDirectory => "Item is not a valid Directory"@,
            Error::InvalidConversion => "Attempted conversion is invalid"@,
            Error::InvalidPath => "Path supplied is invalid"@,
            Error::ArrayPositionNotFound => "Cannot find position of array content."@,
            Error::DimensionMismatch => "Data module supplied does not match dimension module"@,
            Error::DataObjectExist => "Data object provided already exist within the dimension"@,
            Error::DataObjectNotFound => "Data object does not exist within tje dimension"@,
            Error::InvalidDataType => "Invalid data type"@,
            Error::ObjectNotFound => "Object is not found"@,
            Error::InvalidKeyLength => "The length of the key is invalid"@,
            Error::FileNotFound => "File is not found"@,
            Error::DirectoryNotFound => "Directory is not found"@,
            Error::ToBeDetermined => "To be determined"@,
            Error::EncryptionError => "Unable to encrypt data"@,
            Error::DecryptionError => "Unable to decrypt data"@,
            Error::EncryptionStreamError => "Unable to encrypt stream"@,
            Error::DecryptionStreamError => "Unable to decrypt stream"@,
            Error::Unimplemented => "Functionality is not yet implemented"@,
            Error::Other => "An unknown error has occurred"@,
            Error::EmptyMessage => "Message is empty"@,
            Error::InvalidMessage => "Message is invalid"@,
            Error::MessageNotFound => "Message is not found"@,
            Error::MessageFound => "Message is already there"@,
            Error::InvalidLength { .. } => "Length is invalid"@,
            Error::ReactionExist => "Reaction is already there"@,
            Error::ReactionDoesntExist => "Reaction does not exist"@,
            Error::InvalidConversation => "Conversation is invalid"@,
            Error::CannotCreateConversation => "Conversation cannot be created"@,
            Error::ConversationExist { .. } => "Conversation is already there"@,
            Error::PublicKeyInvalid => "Public key is invalid"@,
            Error::PublicKeyIsBlocked => "Public key is blocked"@,
            Error::PublicKeyIsntBlocked => "Public key is not blocked"@,
            Error::PublicKeyDoesntExist => "Public key does not exist"@,
            Error::IdentityExist => "Identity is already there"@,
            Error::IdentityDoesntExist => "Identity does not exist"@,
            Error::Unauthorized => "Not authorized"@,
            Error::NoAttachments => "There are no attachments"@,
            Error::InvalidFile => "File is invalid"@,
            Error::InvalidCommunity => "Community is invalid"@,
            Error::CommunityInviteDoesntExist => "Invite does not exist"@,
            Error::CommunityInviteIncorrectUser => "Invite is for another user"@,
            Error::CommunityInviteExpired => "Invite has expired"@,
            Error::CommunityChannelLimitReached => "Community has as many channels as it can have"@,
            Error::CommunityChannelDoesntExist => "Channel does not exist"@,
            Error::CommunityRoleDoesntExist => "Role does not exist"@,
            Error::OtherWithContext(reason) => reason.spec_text(),
        }
    }

    pub fn text(self) -> (r: &'static str)
        ensures
            r@ == self.spec_text(),
    {
        match self {
            Error::HookUnregistered => "Hook is not registered",
            Error::DuplicateHook => "Hook with this name already registered",
            Error::AlreadySubscribed => "Already subscribed to this hook",
            Error::DuplicateName => "Item with name already exists in current directory",
            Error::DirParadox => "Directory cannot contain itself",
            Error::DirParentParadox => "Directory cannot contain one of its ancestors",
            Error::DirInvalid => "Directory cannot be found or is invalid",
            Error::ItemInvalid => "Item cannot be found or is invalid",
            Error::ItemNotFile => "Item is not a valid file",
            Error::ItemNotDirectory => "Item is not a valid Directory",
            Error::InvalidConversion => "Attempted conversion is invalid",
            Error::InvalidPath => "Path supplied is invalid",
            Error::ArrayPositionNotFound => "Cannot find position of array content.",
            Error::DimensionMismatch => "Data module supplied does not match dimension module",
            Error::DataObjectExist => "Data object provided already exist within the dimension",
            Error::DataObjectNotFound => "Data object does not exist within tje dimension",
            Error::InvalidDataType => "Invalid data type",
            Error::ObjectNotFound => "Object is not found",
            Error::InvalidKeyLength => "The length of the key is invalid",
            Error::FileNotFound => "File is not found",
            Error::DirectoryNotFound => "Directory is not found",
            Error::ToBeDetermined => "To be determined",
            Error::EncryptionError => "Unable to encrypt data",
            Error::DecryptionError => "Unable to decrypt data",
            Error::EncryptionStreamError => "Unable to encrypt stream",
            Error::DecryptionStreamError => "Unable to decrypt stream",
            Error::Unimplemented => "Functionality is not yet implemented",
            Error::Other => "An unknown error has occurred",
            Error::EmptyMessage => "Message is empty",
            Error::InvalidMessage => "Message is invalid",
            Error::MessageNotFound => "Message is not found",
            Error::MessageFound => "Message is already there",
            Error::InvalidLength { .. } => "Length is invalid",
            Error::ReactionExist => "Reaction is already there",
            Error::ReactionDoesntExist => "Reaction does not exist",
            Error::InvalidConversation => "Conversation is invalid",
            Error::CannotCreateConversation => "Conversation cannot be created",
            Error::ConversationExist { .. } => "Conversation is already there",
            Error::PublicKeyInvalid => "Public key is invalid",
            Error::PublicKeyIsBlocked => "Public key is blocked",
            Error::PublicKeyIsntBlocked => "Public key is not blocked",
            Error::PublicKeyDoesntExist => "Public key does not exist",
            Error::IdentityExist => "Identity is already there",
            Error::IdentityDoesntExist => "Identity does not exist",
            Error::Unauthorized => "Not authorized",
            Error::NoAttachments => "There are no attachments",
            Error::InvalidFile => "File is invalid",
            Error::InvalidCommunity => "Community is invalid",
            Error::CommunityInviteDoesntExist => "Invite does not exist",
            Error::CommunityInviteIncorrectUser => "Invite is for another user",
            Error::CommunityInviteExpired => "Invite has expired",
            Error::CommunityChannelLimitReached => "Community has as many channels as it can have",
            Error::CommunityChannelDoesntExist => "Channel does not exist",
            Error::CommunityRoleDoesntExist => "Role does not exist",
            Error::OtherWithContext(reason) => reason.text(),
        }
    }
}

/// Hands an error on as it is.
pub fn into_error(error: Error) -> (r: Error)
    ensures
        r == error,
{
    error
}

} // verus!
