//! What other members do to a conversation.
use vstd::prelude::*;
use indexmap::IndexMap;
use crate::error::{Error, LengthOf, Reason};
use crate::ids::{contains_did, Did, Timestamp, Uuid};
use crate::ordered;
use crate::text::{self, same_text, trim};
use super::chat;
use super::document::{self, ConversationDocument, Exclusion};
use super::info::{self, check_description, MAX_NAME};
use super::members::{self, difference};
use super::message::{self, Message};
use super::{
    Effects, Grant, GroupPermission, Limits, MessageEvent, MessageEventKind, PinState,
    ReactionState,
};

verus! {

/// How a conversation was changed by another member, who sends the whole conversation with it.
pub enum ConversationUpdateKind {
    AddParticipant { did: Did },
    RemoveParticipant { did: Did },
    AddRestricted { did: Did },
    RemoveRestricted { did: Did },
    ChangeName { name: Option<String> },
    ChangeDescription { description: Option<String> },
    ChangePermissions { permissions: IndexMap<(u128, u128), Vec<GroupPermission>> },
    AddedIcon,
    AddedBanner,
    RemovedIcon,
    RemovedBanner,
}

/// What another member did.
#[allow(inconsistent_fields)]
pub enum MessagingEvents {
    New { message: Message },
    Edit { conversation_id: Uuid, message_id: Uuid, modified: Timestamp, lines: Vec<String> },
    Delete { conversation_id: Uuid, message_id: Uuid },
    Pin { conversation_id: Uuid, member: Did, message_id: Uuid, state: PinState },
    React {
        conversation_id: Uuid,
        reactor: Did,
        message_id: Uuid,
        state: ReactionState,
        emoji: String,
    },
    UpdateConversation { conversation: ConversationDocument, kind: ConversationUpdateKind },
    Event { conversation_id: Uuid, member: Did, event: MessageEvent, cancelled: bool },
}

/// Who keeps the document. The two differ in what they take from an update, in what an image without
/// a reference is refused with, and in the arrivals that mailboxes are told of.
#[derive(Clone, Copy, PartialEq, Eq, Structural, Debug)]
pub enum Keeper {
    /// A task of its own: it keeps the leave of a member whom the creator removes, and takes the
    /// permissions that the received conversation holds.
    Task,
    /// The store of all conversations: it forgets such a leave, and takes the permissions that
    /// are sent beside the conversation.
    Store,
}

/// A received conversation with what only the own copy knows.
pub open spec fn merged(
    received: ConversationDocument,
    own_copy: ConversationDocument,
) -> ConversationDocument {
    ConversationDocument {
        excluded: own_copy.excluded,
        messages: own_copy.messages,
        favorite: own_copy.favorite,
        archived: own_copy.archived,
        ..received
    }
}

/// Something is saved, and the subscribers are told.
pub open spec fn told(event: Option<MessageEventKind>) -> Effects {
    Effects { save: true, event, ..Effects::spec_none() }
}

fn tell(event: Option<MessageEventKind>) -> (r: Effects)
    ensures
        r == told(event),
{
    Effects {
        save: true,
        event,
        mailbox: None,
        publish: None,
        direct: None,
        request_key: None,
        ping: None,
        discover: None,
    }
}

/// Why a new message is refused.
pub open spec fn new_refusal(
    doc: ConversationDocument,
    message: Message,
    genuine: bool,
) -> Option<Error> {
    if !genuine {
        Some(Error::InvalidMessage)
    } else if doc.id != message.conversation_id {
        Some(Error::InvalidConversation)
    } else if !doc.spec_recipients().contains(message.sender) {
        Some(Error::IdentityDoesntExist)
    } else if document::has_message(doc.messages@, message.id) {
        Some(Error::MessageFound)
    } else {
        None
    }
}

/// Why a message cannot be changed.
pub open spec fn missing_message(doc: ConversationDocument, id: Uuid) -> Option<Error> {
    if document::has_message(doc.messages@, id) {
        None
    } else {
        Some(Error::MessageNotFound)
    }
}

/// Why an update of the conversation is refused.
pub open spec fn update_refusal(
    doc: ConversationDocument,
    sender: Did,
    kind: ConversationUpdateKind,
    genuine: bool,
    limits: Limits,
) -> Option<Error> {
    if !genuine {
        Some(Error::OtherWithContext(Reason::InvalidSignature))
    } else {
        match kind {
            ConversationUpdateKind::AddParticipant { .. } => if !doc.is_creator(sender)
                && !doc.permits(sender, GroupPermission::AddParticipants) {
                Some(Error::Unauthorized)
            } else {
                None
            },
            ConversationUpdateKind::RemoveParticipant { did } => if !doc.is_creator(sender) {
                Some(Error::Unauthorized)
            } else if !doc.recipients@.contains(did) {
                Some(Error::IdentityDoesntExist)
            } else {
                None
            },
            ConversationUpdateKind::ChangeName { name } => if !doc.is_creator(sender)
                && !doc.permits(sender, GroupPermission::SetGroupName) {
                Some(Error::Unauthorized)
            } else {
                match name {
                    Some(n) => if text::byte_length(text::trimmed(n@)) > MAX_NAME {
                        Some(
                            Error::InvalidLength {
                                context: LengthOf::Name,
                                current: text::byte_length(text::trimmed(n@)),
                                minimum: None,
                                maximum: Some(MAX_NAME),
                            },
                        )
                    } else {
                        None
                    },
                    None => None,
                }
            },
            ConversationUpdateKind::AddRestricted { .. }
            | ConversationUpdateKind::RemoveRestricted { .. }
            | ConversationUpdateKind::ChangePermissions { .. } => if !doc.is_creator(sender) {
                Some(Error::Unauthorized)
            } else {
                None
            },
            ConversationUpdateKind::ChangeDescription { description } =>
                info::description_length_refusal(description, limits.max_description),
            _ => None,
        }
    }
}

/// Whether an update says what is known already.
pub open spec fn is_known(doc: ConversationDocument, kind: ConversationUpdateKind) -> bool {
    match kind {
        ConversationUpdateKind::AddParticipant { did } => doc.recipients@.contains(did),
        ConversationUpdateKind::ChangeName { name: Some(n) } => doc.name matches Some(current)
            && current@ == text::trimmed(n@),
        ConversationUpdateKind::ChangeDescription { description: Some(d) } => doc.description
            matches Some(current) && current@ == d@,
        _ => false,
    }
}

/// The document after an update that is taken.
pub open spec fn is_updated(
    before: ConversationDocument,
    after: ConversationDocument,
    received: ConversationDocument,
    kind: ConversationUpdateKind,
    keeper: Keeper,
) -> bool {
    match (keeper, kind) {
        (Keeper::Store, ConversationUpdateKind::RemoveParticipant { did }) => {
            &&& after == (ConversationDocument {
                excluded: after.excluded,
                ..merged(received, before)
            })
            &&& after.excluded@ == before.excluded@.filter(|x: Exclusion| x.did != did)
        },
        (Keeper::Store, ConversationUpdateKind::ChangePermissions { permissions }) => after == (
        ConversationDocument { permissions, ..merged(received, before) }),
        _ => after == merged(received, before),
    }
}

/// What the subscribers are told of an update that is taken.
pub open spec fn is_update_event(
    event: Option<MessageEventKind>,
    before: ConversationDocument,
    received: ConversationDocument,
    kind: ConversationUpdateKind,
    keeper: Keeper,
) -> bool {
    match kind {
        ConversationUpdateKind::AddParticipant { did } => event == Some(
            MessageEventKind::RecipientAdded { conversation_id: before.id, recipient: did },
        ),
        ConversationUpdateKind::RemoveParticipant { did } => event == (if document::has_left(
            before.excluded@,
            did,
        ) {
            None
        } else {
            Some(MessageEventKind::RecipientRemoved { conversation_id: before.id, recipient: did })
        }),
        ConversationUpdateKind::ChangeName { name } => {
            let shown = match name {
                Some(n) => text::trimmed(n@),
                None => Seq::empty(),
            };
            event matches Some(
                MessageEventKind::ConversationNameUpdated { conversation_id, name },
            ) && conversation_id == before.id && name@ == shown
        },
        ConversationUpdateKind::AddRestricted { .. }
        | ConversationUpdateKind::RemoveRestricted { .. } => event is None,
        ConversationUpdateKind::ChangePermissions { permissions } => {
            let earlier = match keeper {
                Keeper::Task => ordered::permission_entries(before.permissions),
                Keeper::Store => ordered::permission_entries(received.permissions),
            };
            let later = ordered::permission_entries(permissions);
            event matches Some(
                MessageEventKind::ConversationPermissionsUpdated {
                    conversation_id,
                    added,
                    removed,
                },
            ) && conversation_id == before.id && added@ == members::granted_beyond(later, earlier)
                && removed@ == members::granted_beyond(earlier, later)
        },
        ConversationUpdateKind::AddedIcon | ConversationUpdateKind::RemovedIcon => event == Some(
            MessageEventKind::ConversationUpdatedIcon { conversation_id: before.id },
        ),
        ConversationUpdateKind::AddedBanner | ConversationUpdateKind::RemovedBanner => event
            == Some(MessageEventKind::ConversationUpdatedBanner { conversation_id: before.id }),
        ConversationUpdateKind::ChangeDescription { description } => event == Some(
            MessageEventKind::ConversationDescriptionChanged {
                conversation_id: before.id,
                description,
            },
        ),
    }
}

/// What an update of the conversation does.
pub open spec fn update_post(
    before: ConversationDocument,
    after: ConversationDocument,
    r: Result<Effects, Error>,
    sender: Did,
    received: ConversationDocument,
    kind: ConversationUpdateKind,
    genuine: bool,
    keeper: Keeper,
    limits: Limits,
) -> bool {
    match update_refusal(before, sender, kind, genuine, limits) {
        Some(e) => r == Err::<Effects, Error>(e) && after == before,
        None => if is_known(before, kind) {
            r == Ok::<Effects, Error>(Effects::spec_none()) && after == before
        } else {
            &&& is_updated(before, after, received, kind, keeper)
            &&& match r {
                Ok(effects) => {
                    let newcomer = match kind {
                        ConversationUpdateKind::AddParticipant { did } => Some(did),
                        _ => None,
                    };
                    &&& effects == (Effects {
                        request_key: newcomer,
                        discover: newcomer,
                        ..told(effects.event)
                    })
                    &&& is_update_event(effects.event, before, received, kind, keeper)
                },
                Err(_) => false,
            }
        },
    }
}

/// What an event of another member does. `genuine` says whether the message or the conversation
/// that it carries is signed as it has to be.
pub open spec fn message_event_post(
    before: ConversationDocument,
    after: ConversationDocument,
    r: Result<Effects, Error>,
    own: Did,
    sender: Did,
    event: MessagingEvents,
    genuine: bool,
    keeper: Keeper,
    limits: Limits,
) -> bool {
    match before.key_refusal(own) {
        Some(e) => r == Err::<Effects, Error>(e) && after == before,
        None => match event {
            MessagingEvents::New { message } => match new_refusal(before, message, genuine) {
                Some(e) => r == Err::<Effects, Error>(e) && after == before,
                None => {
                    &&& r == Ok::<Effects, Error>(
                        told(
                            Some(
                                MessageEventKind::MessageReceived {
                                    conversation_id: before.id,
                                    message_id: message.id,
                                },
                            ),
                        ),
                    )
                    &&& after.messages@ == before.messages@.push(message)
                    &&& after == (ConversationDocument { messages: after.messages, ..before })
                },
            },
            MessagingEvents::Edit { conversation_id, message_id, modified, lines } =>
                match missing_message(before, message_id) {
                Some(e) => r == Err::<Effects, Error>(e) && after == before,
                None => {
                    &&& r == Ok::<Effects, Error>(
                        told(Some(MessageEventKind::MessageEdited { conversation_id, message_id })),
                    )
                    &&& chat::message_replaced(
                        before,
                        after,
                        message_id,
                        Message {
                            lines,
                            modified: Some(modified),
                            ..before.messages@[document::message_index(
                                before.messages@,
                                message_id,
                            )]
                        },
                    )
                },
            },
            MessagingEvents::Delete { conversation_id, message_id } => match missing_message(
                before,
                message_id,
            ) {
                Some(e) => r == Err::<Effects, Error>(e) && after == before,
                None => {
                    &&& r == Ok::<Effects, Error>(
                        told(
                            Some(MessageEventKind::MessageDeleted { conversation_id, message_id }),
                        ),
                    )
                    &&& after.messages@ == before.messages@.remove(
                        document::message_index(before.messages@, message_id),
                    )
                    &&& after == (ConversationDocument { messages: after.messages, ..before })
                },
            },
            MessagingEvents::Pin { conversation_id, message_id, state, .. } =>
                match missing_message(before, message_id) {
                Some(e) => r == Err::<Effects, Error>(e) && after == before,
                None => {
                    let m = before.messages@[document::message_index(before.messages@, message_id)];
                    if m.pinned == (state is Pin) {
                        r == Ok::<Effects, Error>(Effects::spec_none()) && after == before
                    } else {
                        &&& r == Ok::<Effects, Error>(
                            told(Some(chat::pin_event(conversation_id, message_id, state))),
                        )
                        &&& chat::message_replaced(
                            before,
                            after,
                            message_id,
                            Message { pinned: state is Pin, ..m },
                        )
                    }
                },
            },
            MessagingEvents::React { conversation_id, reactor, message_id, state, emoji } =>
                match missing_message(before, message_id) {
                Some(e) => r == Err::<Effects, Error>(e) && after == before,
                None => {
                    let i = document::message_index(before.messages@, message_id);
                    let m = before.messages@[i];
                    let entries = ordered::reaction_entries(m.reactions);
                    match message::reaction_refusal(
                        entries,
                        reactor,
                        state,
                        emoji@,
                        limits.max_reactions,
                    ) {
                        Some(e) => r == Err::<Effects, Error>(e) && after == before,
                        None => {
                            &&& r == Ok::<Effects, Error>(
                                told(
                                    Some(
                                        chat::reaction_event(
                                            conversation_id,
                                            message_id,
                                            reactor,
                                            state,
                                            emoji,
                                        ),
                                    ),
                                ),
                            )
                            &&& chat::message_replaced(
                                before,
                                after,
                                message_id,
                                Message { reactions: after.messages@[i].reactions, ..m },
                            )
                            &&& ordered::reaction_entries(after.messages@[i].reactions)
                                == message::reacted(entries, reactor, state, emoji@)
                        },
                    }
                },
            },
            MessagingEvents::UpdateConversation { conversation, kind } => update_post(
                before,
                after,
                r,
                sender,
                conversation,
                kind,
                genuine,
                keeper,
                limits,
            ),
            MessagingEvents::Event { .. } => r == Ok::<Effects, Error>(Effects::spec_none())
                && after == before,
        },
    }
}

/// The signature that an edited message keeps: the sent one, unless it is empty or the message is
/// the own identity's, which then signs it itself.
pub fn edit_signature(author: Did, own: Did, signature: Vec<u8>) -> (r: Option<Vec<u8>>)
    ensures
        r == (if signature@.len() > 0 && author != own {
            Some(signature)
        } else {
            None
        }),
{
    if signature.len() > 0 && author != own {
        Some(signature)
    } else {
        None
    }
}

fn forget_leave(excluded: &mut Vec<Exclusion>, did: Did)
    ensures
        final(excluded)@ == old(excluded)@.filter(|x: Exclusion| x.did != did),
        document::distinct_leaves(old(excluded)@) ==> document::distinct_leaves(final(excluded)@),
{
    let ghost all = excluded@;
    let mut kept: Vec<Exclusion> = Vec::new();
    let mut rest: Vec<Exclusion> = Vec::new();
    core::mem::swap(excluded, &mut rest);
    proof {
        reveal(Seq::filter);
        assert(all.skip(0) == all);
        assert(all.take(0) == Seq::<Exclusion>::empty());
    }
    let n: usize = rest.len();
    let mut i: usize = 0;
    while i < n
        invariant
            n == all.len(),
            i <= n,
            rest@ == all.skip(i as int),
            kept@ == all.take(i as int).filter(|x: Exclusion| x.did != did),
            document::distinct_leaves(all) ==> document::distinct_leaves(kept@),
            forall|k: int|
                0 <= k < kept@.len() ==> exists|j: int|
                    0 <= j < i && all[j] == #[trigger] kept@[k],
        decreases n - i,
    {
        proof {
            reveal(Seq::filter);
            assert(all.take(i + 1).drop_last() == all.take(i as int));
            assert(all.take(i + 1).last() == all[i as int]);
            assert(rest@[0] == all[i as int]);
        }
        let x = rest.remove(0);
        assert(rest@ == all.skip(i + 1));
        let ghost before = kept@;
        if x.did != did {
            kept.push(x);
        }
        proof {
            assert forall|k: int| 0 <= k < kept@.len() implies exists|j: int|
                0 <= j < i + 1 && all[j] == #[trigger] kept@[k] by {
                if k < before.len() {
                    let j = choose|j: int| 0 <= j < i && all[j] == before[k];
                    assert(all[j] == kept@[k]);
                } else {
                    assert(all[i as int] == kept@[k]);
                }
            }
            if document::distinct_leaves(all) {
                assert forall|k: int| 0 <= k < before.len() implies (
                #[trigger] before[k]).did != x.did by {
                    let j = choose|j: int| 0 <= j < i && all[j] == before[k];
                    assert(all[j].did != all[i as int].did);
                }
            }
        }
        i = i + 1;
    }
    assert(all.take(all.len() as int) == all);
    *excluded = kept;
}

impl ConversationDocument {
    fn created_by(&self, did: Did) -> (r: bool)
        ensures
            r == self.is_creator(did),
    {
        match self.creator {
            Some(creator) => creator == did,
            None => false,
        }
    }

    /// Takes a received conversation over, with what only the own copy knows.
    fn take_over(&mut self, received: ConversationDocument)
        ensures
            *final(self) == merged(received, *old(self)),
    {
        let mut received = received;
        core::mem::swap(&mut received.excluded, &mut self.excluded);
        core::mem::swap(&mut received.messages, &mut self.messages);
        received.favorite = self.favorite;
        received.archived = self.archived;
        *self = received;
    }

    fn check_update(
        &self,
        sender: Did,
        kind: &ConversationUpdateKind,
        genuine: bool,
        limits: Limits,
    ) -> (r: Result<(), Error>)
        ensures
            match update_refusal(*self, sender, *kind, genuine, limits) {
                Some(e) => r == Err::<(), Error>(e),
                None => r is Ok,
            },
    {
        if !genuine {
            return Err(Error::OtherWithContext(Reason::InvalidSignature));
        }
        let creator: bool = self.created_by(sender);
        match kind {
            ConversationUpdateKind::AddParticipant { .. } => if !creator && !self.has_permission(
                sender,
                GroupPermission::AddParticipants,
            ) {
                Err(Error::Unauthorized)
            } else {
                Ok(())
            },
            ConversationUpdateKind::RemoveParticipant { did } => if !creator {
                Err(Error::Unauthorized)
            } else if !contains_did(&self.recipients, *did) {
                Err(Error::IdentityDoesntExist)
            } else {
                Ok(())
            },
            ConversationUpdateKind::ChangeName { name } => if !creator && !self.has_permission(
                sender,
                GroupPermission::SetGroupName,
            ) {
                Err(Error::Unauthorized)
            } else {
                match name {
                    Some(n) => {
                        let length: usize = trim(n.as_str()).len();
                        if length > MAX_NAME {
                            Err(
                                Error::InvalidLength {
                                    context: LengthOf::Name,
                                    current: length,
                                    minimum: None,
                                    maximum: Some(MAX_NAME),
                                },
                            )
                        } else {
                            Ok(())
                        }
                    },
                    None => Ok(()),
                }
            },
            ConversationUpdateKind::AddRestricted { .. }
            | ConversationUpdateKind::RemoveRestricted { .. }
            | ConversationUpdateKind::ChangePermissions { .. } => if !creator {
                Err(Error::Unauthorized)
            } else {
                Ok(())
            },
            ConversationUpdateKind::ChangeDescription { description } => check_description(
                description,
                limits.max_description,
            ),
            _ => Ok(()),
        }
    }

    fn knows(&self, kind: &ConversationUpdateKind) -> (r: bool)
        ensures
            r == is_known(*self, *kind),
    {
        match kind {
            ConversationUpdateKind::AddParticipant { did } => contains_did(&self.recipients, *did),
            ConversationUpdateKind::ChangeName { name: Some(n) } => match &self.name {
                Some(current) => same_text(current.as_str(), trim(n.as_str())),
                None => false,
            },
            ConversationUpdateKind::ChangeDescription { description: Some(d) } => match
                &self.description {
                Some(current) => same_text(current.as_str(), d.as_str()),
                None => false,
            },
            _ => false,
        }
    }

    /// Takes an update of the conversation that another member sent.
    pub fn update_conversation(
        &mut self,
        sender: Did,
        received: ConversationDocument,
        kind: ConversationUpdateKind,
        genuine: bool,
        keeper: Keeper,
        limits: Limits,
    ) -> (r: Result<Effects, Error>)
        ensures
            update_post(
                *old(self),
                *final(self),
                r,
                sender,
                received,
                kind,
                genuine,
                keeper,
                limits,
            ),
            old(self).well_formed() ==> final(self).well_formed(),
    {
        match self.check_update(sender, &kind, genuine, limits) {
            Err(e) => return Err(e),
            Ok(()) => {},
        }
        if self.knows(&kind) {
            return Ok(Effects::none());
        }
        let conversation_id: Uuid = self.id;
        match kind {
            ConversationUpdateKind::AddParticipant { did } => {
                self.take_over(received);
                Ok(
                    Effects {
                        save: true,
                        event: Some(
                            MessageEventKind::RecipientAdded { conversation_id, recipient: did },
                        ),
                        mailbox: None,
                        publish: None,
                        direct: None,
                        request_key: Some(did),
                        ping: None,
                        discover: Some(did),
                    },
                )
            },
            ConversationUpdateKind::RemoveParticipant { did } => {
                let left: bool = self.is_excluded(did);
                self.take_over(received);
                match keeper {
                    Keeper::Task => {},
                    Keeper::Store => {
                        forget_leave(&mut self.excluded, did);
                    },
                }
                Ok(
                    tell(
                        if left {
                            None
                        } else {
                            Some(
                                MessageEventKind::RecipientRemoved {
                                    conversation_id,
                                    recipient: did,
                                },
                            )
                        },
                    ),
                )
            },
            ConversationUpdateKind::ChangeName { name } => {
                let shown = match &name {
                    Some(n) => trim(n.as_str()).to_owned(),
                    None => String::new(),
                };
                self.take_over(received);
                Ok(
                    tell(
                        Some(
                            MessageEventKind::ConversationNameUpdated {
                                conversation_id,
                                name: shown,
                            },
                        ),
                    ),
                )
            },
            ConversationUpdateKind::AddRestricted { .. }
            | ConversationUpdateKind::RemoveRestricted { .. } => {
                self.take_over(received);
                Ok(tell(None))
            },
            ConversationUpdateKind::ChangePermissions { permissions } => {
                let mut added: Vec<Grant> = Vec::new();
                let mut removed: Vec<Grant> = Vec::new();
                match keeper {
                    Keeper::Task => {
                        added = difference(&permissions, &self.permissions);
                        removed = difference(&self.permissions, &permissions);
                        self.take_over(received);
                    },
                    Keeper::Store => {
                        added = difference(&permissions, &received.permissions);
                        removed = difference(&received.permissions, &permissions);
                        self.take_over(received);
                        self.permissions = permissions;
                    },
                }
                Ok(
                    tell(
                        Some(
                            MessageEventKind::ConversationPermissionsUpdated {
                                conversation_id,
                                added,
                                removed,
                            },
                        ),
                    ),
                )
            },
            ConversationUpdateKind::AddedIcon | ConversationUpdateKind::RemovedIcon => {
                self.take_over(received);
                Ok(tell(Some(MessageEventKind::ConversationUpdatedIcon { conversation_id })))
            },
            ConversationUpdateKind::AddedBanner | ConversationUpdateKind::RemovedBanner => {
                self.take_over(received);
                Ok(tell(Some(MessageEventKind::ConversationUpdatedBanner { conversation_id })))
            },
            ConversationUpdateKind::ChangeDescription { description } => {
                self.take_over(received);
                Ok(
                    tell(
                        Some(
                            MessageEventKind::ConversationDescriptionChanged {
                                conversation_id,
                                description,
                            },
                        ),
                    ),
                )
            },
        }
    }

    /// Takes an event of another member.
    pub fn message_event(
        &mut self,
        own: Did,
        sender: Did,
        event: MessagingEvents,
        genuine: bool,
        keeper: Keeper,
        limits: Limits,
    ) -> (r: Result<Effects, Error>)
        ensures
            message_event_post(
                *old(self),
                *final(self),
                r,
                own,
                sender,
                event,
                genuine,
                keeper,
                limits,
            ),
            old(self).well_formed() ==> final(self).well_formed(),
    {
        match self.check_key(own) {
            Err(e) => return Err(e),
            Ok(()) => {},
        }
        match event {
            MessagingEvents::New { message } => {
                if !genuine {
                    return Err(Error::InvalidMessage);
                }
                if self.id != message.conversation_id {
                    return Err(Error::InvalidConversation);
                }
                if !contains_did(&self.recipients(), message.sender) {
                    return Err(Error::IdentityDoesntExist);
                }
                let message_id: Uuid = message.id;
                match self.insert_message(message) {
                    Err(e) => Err(e),
                    Ok(()) => Ok(
                        tell(
                            Some(
                                MessageEventKind::MessageReceived {
                                    conversation_id: self.id,
                                    message_id,
                                },
                            ),
                        ),
                    ),
                }
            },
            MessagingEvents::Edit { conversation_id, message_id, modified, lines } => {
                match self.position(message_id) {
                    Some(i) => {
                        self.messages[i].edit(lines, modified);
                        Ok(
                            tell(
                                Some(
                                    MessageEventKind::MessageEdited { conversation_id, message_id },
                                ),
                            ),
                        )
                    },
                    None => Err(Error::MessageNotFound),
                }
            },
            MessagingEvents::Delete { conversation_id, message_id } => {
                match self.remove_message(message_id) {
                    Err(e) => Err(e),
                    Ok(()) => Ok(
                        tell(
                            Some(MessageEventKind::MessageDeleted { conversation_id, message_id }),
                        ),
                    ),
                }
            },
            MessagingEvents::Pin { conversation_id, message_id, state, .. } => {
                let i: usize = match self.position(message_id) {
                    Some(i) => i,
                    None => return Err(Error::MessageNotFound),
                };
                let pinned: bool = match state {
                    PinState::Pin => true,
                    PinState::Unpin => false,
                };
                if self.messages[i].pinned == pinned {
                    return Ok(Effects::none());
                }
                self.messages[i].pin(state);
                Ok(
                    tell(
                        Some(
                            match state {
                                PinState::Pin => MessageEventKind::MessagePinned {
                                    conversation_id,
                                    message_id,
                                },
                                PinState::Unpin => MessageEventKind::MessageUnpinned {
                                    conversation_id,
                                    message_id,
                                },
                            },
                        ),
                    ),
                )
            },
            MessagingEvents::React { conversation_id, reactor, message_id, state, emoji } => {
                let i: usize = match self.position(message_id) {
                    Some(i) => i,
                    None => return Err(Error::MessageNotFound),
                };
                match self.messages[i].check_react(reactor, state, &emoji, limits.max_reactions) {
                    Err(e) => return Err(e),
                    Ok(()) => {},
                }
                let _ = self.messages[i].react(reactor, state, &emoji, limits.max_reactions);
                Ok(
                    tell(
                        Some(
                            match state {
                                ReactionState::Add => MessageEventKind::MessageReactionAdded {
                                    conversation_id,
                                    message_id,
                                    did_key: reactor,
                                    reaction: emoji,
                                },
                                ReactionState::Remove => MessageEventKind::MessageReactionRemoved {
                                    conversation_id,
                                    message_id,
                                    did_key: reactor,
                                    reaction: emoji,
                                },
                            },
                        ),
                    ),
                )
            },
            MessagingEvents::UpdateConversation { conversation, kind } => self.update_conversation(
                sender,
                conversation,
                kind,
                genuine,
                keeper,
                limits,
            ),
            MessagingEvents::Event { .. } => Ok(Effects::none()),
        }
    }
}

/// What the subscribers are told of a sign of activity. Anything else that comes by that way is
/// refused.
pub open spec fn activity_event(event: MessagingEvents) -> Result<MessageEventKind, Error> {
    match event {
        MessagingEvents::Event { conversation_id, member, event, cancelled } => Ok(
            if cancelled {
                MessageEventKind::EventCancelled { conversation_id, did_key: member, event }
            } else {
                MessageEventKind::EventReceived { conversation_id, did_key: member, event }
            },
        ),
        _ => Err(Error::Other),
    }
}

pub fn conversation_event(event: MessagingEvents) -> (r: Result<MessageEventKind, Error>)
    ensures
        r == activity_event(event),
{
    match event {
        MessagingEvents::Event { conversation_id, member, event, cancelled } => Ok(
            if cancelled {
                MessageEventKind::EventCancelled { conversation_id, did_key: member, event }
            } else {
                MessageEventKind::EventReceived { conversation_id, did_key: member, event }
            },
        ),
        _ => Err(Error::Other),
    }
}

} // verus!
