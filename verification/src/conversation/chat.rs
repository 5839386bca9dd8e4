//! Messages of the own identity: sending, answering, editing, deleting, pinning and reacting.
use vstd::prelude::*;
use crate::error::Error;
use crate::ids::{Did, Timestamp, Uuid};
use crate::ordered;
use super::document::{self, ConversationDocument};
use super::message::{self, check_lines, Message};
use super::{
    Effects, Limits, MailboxCommand, MessageEventKind, MessageType, Outgoing, PinState,
    Publication, ReactionState,
};

verus! {

/// A message goes to the mailboxes where the conversation has members.
pub open spec fn mailbox_insert(recipients: Seq<Did>, message_id: Uuid) -> Option<MailboxCommand> {
    if recipients.len() > 0 {
        Some(MailboxCommand::InsertMessage { message_id })
    } else {
        None
    }
}

/// A message of text as it was written, with nothing done to it yet.
pub open spec fn is_fresh(
    m: Message,
    id: Uuid,
    conversation_id: Uuid,
    sender: Did,
    date: Timestamp,
    lines: Vec<String>,
    replied: Option<Uuid>,
) -> bool {
    &&& m == (Message {
        id,
        message_type: MessageType::Message,
        conversation_id,
        sender,
        date,
        modified: None,
        replied,
        pinned: false,
        lines,
        reactions: m.reactions,
        attachments: m.attachments,
    })
    &&& ordered::reaction_entries(m.reactions).len() == 0
    &&& m.attachments@.len() == 0
}

/// Why a new message is refused.
pub open spec fn send_refusal(
    doc: ConversationDocument,
    own: Did,
    id: Uuid,
    lines: Seq<String>,
    limits: Limits,
) -> Option<Error> {
    match message::lines_refusal(lines, limits.min_message_size, limits.max_message_size) {
        Some(e) => Some(e),
        None => match doc.key_refusal(own) {
            Some(e) => Some(e),
            None => if document::has_message(doc.messages@, id) {
                Some(Error::MessageFound)
            } else {
                None
            },
        },
    }
}

/// What is left to do after a message was put in.
pub open spec fn sent_effects(doc: ConversationDocument, id: Uuid) -> Effects {
    Effects {
        save: true,
        event: Some(MessageEventKind::MessageSent { conversation_id: doc.id, message_id: id }),
        mailbox: mailbox_insert(doc.spec_recipients(), id),
        publish: Some(
            Publication { message_id: Some(id), event: Outgoing::New { message_id: id } },
        ),
        direct: None,
        request_key: None,
        ping: None,
        discover: None,
    }
}

/// Why a change of a message is refused before the message is looked at: there is no key, or no
/// such message.
pub open spec fn access_refusal(doc: ConversationDocument, own: Did, id: Uuid) -> Option<Error> {
    match doc.key_refusal(own) {
        Some(e) => Some(e),
        None => if document::has_message(doc.messages@, id) {
            None
        } else {
            Some(Error::MessageNotFound)
        },
    }
}

/// Why an edit is refused.
pub open spec fn edit_refusal(
    doc: ConversationDocument,
    own: Did,
    id: Uuid,
    lines: Seq<String>,
    limits: Limits,
) -> Option<Error> {
    match message::lines_refusal(lines, limits.min_message_size, limits.max_message_size) {
        Some(e) => Some(e),
        None => match access_refusal(doc, own, id) {
            Some(e) => Some(e),
            None => if doc.messages@[document::message_index(doc.messages@, id)].sender != own {
                Some(Error::InvalidMessage)
            } else {
                None
            },
        },
    }
}

/// Why a reaction is refused.
pub open spec fn react_refusal(
    doc: ConversationDocument,
    own: Did,
    id: Uuid,
    state: ReactionState,
    emoji: Seq<char>,
    limits: Limits,
) -> Option<Error> {
    match access_refusal(doc, own, id) {
        Some(e) => Some(e),
        None => message::reaction_refusal(
            ordered::reaction_entries(
                doc.messages@[document::message_index(doc.messages@, id)].reactions,
            ),
            own,
            state,
            emoji,
            limits.max_reactions,
        ),
    }
}

/// Only the message with this identifier changed, into `m`.
pub open spec fn message_replaced(
    before: ConversationDocument,
    after: ConversationDocument,
    id: Uuid,
    m: Message,
) -> bool {
    &&& after.messages@ == before.messages@.update(
        document::message_index(before.messages@, id),
        m,
    )
    &&& after == (ConversationDocument { messages: after.messages, ..before })
}

fn mailbox_for(doc: &ConversationDocument, message_id: Uuid) -> (r: Option<MailboxCommand>)
    ensures
        r == mailbox_insert(doc.spec_recipients(), message_id),
{
    if doc.recipients().len() > 0 {
        Some(MailboxCommand::InsertMessage { message_id })
    } else {
        None
    }
}

/// What `ConversationDocument::store_message` does.
pub open spec fn store_message_post(
    before: ConversationDocument,
    after: ConversationDocument,
    r: Result<Effects, Error>,
    message: Message,
) -> bool {
    if document::has_message(before.messages@, message.id) {
        r == Err::<Effects, Error>(Error::MessageFound) && after == before
    } else {
        &&& r == Ok::<Effects, Error>(sent_effects(before, message.id))
        &&& after.messages@ == before.messages@.push(message)
        &&& after == (ConversationDocument {
            messages: after.messages,
            ..before
        })
    }
}

/// What `ConversationDocument::send_message` does.
pub open spec fn send_message_post(
    before: ConversationDocument,
    after: ConversationDocument,
    r: Result<Effects, Error>,
    own: Did,
    id: Uuid,
    date: Timestamp,
    lines: Vec<String>,
    limits: Limits,
) -> bool {
    match send_refusal(before, own, id, lines@, limits) {
        Some(e) => r == Err::<Effects, Error>(e) && after == before,
        None => {
            &&& r == Ok::<Effects, Error>(sent_effects(before, id))
            &&& after.messages@.len() == before.messages@.len() + 1
            &&& after.messages@ == before.messages@.push(
                after.messages@.last(),
            )
            &&& is_fresh(
                after.messages@.last(),
                id,
                before.id,
                own,
                date,
                lines,
                None,
            )
            &&& after == (ConversationDocument {
                messages: after.messages,
                ..before
            })
        },
    }
}

/// What `ConversationDocument::reply_message` does.
pub open spec fn reply_message_post(
    before: ConversationDocument,
    after: ConversationDocument,
    r: Result<Effects, Error>,
    own: Did,
    id: Uuid,
    date: Timestamp,
    replied: Uuid,
    lines: Vec<String>,
    limits: Limits,
) -> bool {
    match send_refusal(before, own, id, lines@, limits) {
        Some(e) => r == Err::<Effects, Error>(e) && after == before,
        None => {
            &&& r == Ok::<Effects, Error>(sent_effects(before, id))
            &&& after.messages@.len() == before.messages@.len() + 1
            &&& after.messages@ == before.messages@.push(
                after.messages@.last(),
            )
            &&& is_fresh(
                after.messages@.last(),
                id,
                before.id,
                own,
                date,
                lines,
                Some(replied),
            )
            &&& after == (ConversationDocument {
                messages: after.messages,
                ..before
            })
        },
    }
}

/// What `ConversationDocument::edit_message` does.
pub open spec fn edit_message_post(
    before: ConversationDocument,
    after: ConversationDocument,
    r: Result<Effects, Error>,
    own: Did,
    id: Uuid,
    lines: Vec<String>,
    now: Timestamp,
    limits: Limits,
) -> bool {
    match edit_refusal(before, own, id, lines@, limits) {
        Some(e) => r == Err::<Effects, Error>(e) && after == before,
        None => {
            &&& r == Ok::<Effects, Error>(
                Effects {
                    save: true,
                    event: Some(
                        MessageEventKind::MessageEdited {
                            conversation_id: before.id,
                            message_id: id,
                        },
                    ),
                    mailbox: mailbox_insert(before.spec_recipients(), id),
                    publish: Some(
                        Publication {
                            message_id: None,
                            event: Outgoing::Edit { message_id: id, modified: now },
                        },
                    ),
                    direct: None,
                    request_key: None,
                    ping: None,
                    discover: None,
                },
            )
            &&& message_replaced(
                before,
                after,
                id,
                Message {
                    lines,
                    modified: Some(now),
                    ..before.messages@[document::message_index(before.messages@, id)]
                },
            )
        },
    }
}

/// What `ConversationDocument::delete_message` does.
pub open spec fn delete_message_post(
    before: ConversationDocument,
    after: ConversationDocument,
    r: Result<Effects, Error>,
    id: Uuid,
    broadcast: bool,
) -> bool {
    if document::has_message(before.messages@, id) {
        &&& r == Ok::<Effects, Error>(
            Effects {
                save: true,
                event: Some(
                    MessageEventKind::MessageDeleted {
                        conversation_id: before.id,
                        message_id: id,
                    },
                ),
                mailbox: Some(MailboxCommand::RemoveMessage { message_id: id }),
                publish: if broadcast {
                    Some(
                        Publication {
                            message_id: None,
                            event: Outgoing::Delete { message_id: id },
                        },
                    )
                } else {
                    None
                },
                direct: None,
                request_key: None,
                ping: None,
                discover: None,
            },
        )
        &&& after.messages@ == before.messages@.remove(
            document::message_index(before.messages@, id),
        )
        &&& after == (ConversationDocument {
            messages: after.messages,
            ..before
        })
    } else {
        r == Err::<Effects, Error>(Error::MessageNotFound) && after == before
    }
}

/// What `ConversationDocument::pin_message` does.
pub open spec fn pin_message_post(
    before: ConversationDocument,
    after: ConversationDocument,
    r: Result<Effects, Error>,
    own: Did,
    id: Uuid,
    state: PinState,
) -> bool {
    match access_refusal(before, own, id) {
        Some(e) => r == Err::<Effects, Error>(e) && after == before,
        None => {
            let m = before.messages@[document::message_index(before.messages@, id)];
            if m.pinned == (state is Pin) {
                r == Ok::<Effects, Error>(Effects::spec_none()) && after == before
            } else {
                &&& r == Ok::<Effects, Error>(
                    Effects {
                        save: true,
                        event: Some(pin_event(before.id, id, state)),
                        mailbox: mailbox_insert(before.spec_recipients(), id),
                        publish: Some(
                            Publication {
                                message_id: None,
                                event: Outgoing::Pin {
                                    member: own,
                                    message_id: id,
                                    state,
                                },
                            },
                        ),
                        direct: None,
                        request_key: None,
                        ping: None,
                        discover: None,
                    },
                )
                &&& message_replaced(
                    before,
                    after,
                    id,
                    Message { pinned: state is Pin, ..m },
                )
            }
        },
    }
}

/// What `ConversationDocument::react` does.
pub open spec fn react_post(
    before: ConversationDocument,
    after: ConversationDocument,
    r: Result<Effects, Error>,
    own: Did,
    id: Uuid,
    state: ReactionState,
    emoji: String,
    limits: Limits,
) -> bool {
    match react_refusal(before, own, id, state, emoji@, limits) {
        Some(e) => r == Err::<Effects, Error>(e) && after == before,
        None => {
            let i = document::message_index(before.messages@, id);
            let m = before.messages@[i];
            &&& r == Ok::<Effects, Error>(
                Effects {
                    save: true,
                    event: Some(reaction_event(before.id, id, own, state, emoji)),
                    mailbox: mailbox_insert(before.spec_recipients(), id),
                    publish: Some(
                        Publication {
                            message_id: None,
                            event: Outgoing::React {
                                reactor: own,
                                message_id: id,
                                state,
                                emoji,
                            },
                        },
                    ),
                    direct: None,
                    request_key: None,
                    ping: None,
                    discover: None,
                },
            )
            &&& message_replaced(
                before,
                after,
                id,
                Message { reactions: after.messages@[i].reactions, ..m },
            )
            &&& ordered::reaction_entries(after.messages@[i].reactions)
                == message::reacted(
                ordered::reaction_entries(m.reactions),
                own,
                state,
                emoji@,
            )
        },
    }
}

impl ConversationDocument {
    /// Puts a whole message in and says what is left to do.
    pub fn store_message(&mut self, message: Message) -> (r: Result<Effects, Error>)
        ensures
            store_message_post(*old(self), *final(self), r, message),
            old(self).well_formed() ==> final(self).well_formed(),
    {
        let id: Uuid = message.id;
        match self.insert_message(message) {
            Err(e) => Err(e),
            Ok(()) => Ok(
                Effects {
                    save: true,
                    event: Some(
                        MessageEventKind::MessageSent { conversation_id: self.id, message_id: id },
                    ),
                    mailbox: mailbox_for(self, id),
                    publish: Some(
                        Publication {
                            message_id: Some(id),
                            event: Outgoing::New { message_id: id },
                        },
                    ),
                    direct: None,
                    request_key: None,
                    ping: None,
                    discover: None,
                },
            ),
        }
    }

    fn write(
        &mut self,
        own: Did,
        id: Uuid,
        date: Timestamp,
        lines: Vec<String>,
        replied: Option<Uuid>,
        limits: Limits,
    ) -> (r: Result<Effects, Error>)
        ensures
            match send_refusal(*old(self), own, id, lines@, limits) {
                Some(e) => r == Err::<Effects, Error>(e) && *final(self) == *old(self),
                None => {
                    &&& r == Ok::<Effects, Error>(sent_effects(*old(self), id))
                    &&& final(self).messages@.len() == old(self).messages@.len() + 1
                    &&& final(self).messages@ == old(self).messages@.push(
                        final(self).messages@.last(),
                    )
                    &&& is_fresh(
                        final(self).messages@.last(),
                        id,
                        old(self).id,
                        own,
                        date,
                        lines,
                        replied,
                    )
                    &&& *final(self) == (ConversationDocument {
                        messages: final(self).messages,
                        ..*old(self)
                    })
                },
            },
            old(self).well_formed() ==> final(self).well_formed(),
    {
        match check_lines(&lines, limits.min_message_size, limits.max_message_size) {
            Err(e) => return Err(e),
            Ok(()) => {},
        }
        match self.check_key(own) {
            Err(e) => return Err(e),
            Ok(()) => {},
        }
        let message = Message::new(id, self.id, own, date, lines, replied);
        self.store_message(message)
    }

    /// Sends a message.
    pub fn send_message(
        &mut self,
        own: Did,
        id: Uuid,
        date: Timestamp,
        lines: Vec<String>,
        limits: Limits,
    ) -> (r: Result<Effects, Error>)
        ensures
            send_message_post(*old(self), *final(self), r, own, id, date, lines, limits),
            old(self).well_formed() ==> final(self).well_formed(),
    {
        self.write(own, id, date, lines, None, limits)
    }

    /// Sends an answer to a message, which need not be there.
    pub fn reply_message(
        &mut self,
        own: Did,
        id: Uuid,
        date: Timestamp,
        replied: Uuid,
        lines: Vec<String>,
        limits: Limits,
    ) -> (r: Result<Effects, Error>)
        ensures
            reply_message_post(*old(self), *final(self), r, own, id, date, replied, lines, limits),
            old(self).well_formed() ==> final(self).well_formed(),
    {
        self.write(own, id, date, lines, Some(replied), limits)
    }

    /// Puts other lines into an own message.
    pub fn edit_message(
        &mut self,
        own: Did,
        id: Uuid,
        lines: Vec<String>,
        now: Timestamp,
        limits: Limits,
    ) -> (r: Result<Effects, Error>)
        ensures
            edit_message_post(*old(self), *final(self), r, own, id, lines, now, limits),
            old(self).well_formed() ==> final(self).well_formed(),
    {
        match check_lines(&lines, limits.min_message_size, limits.max_message_size) {
            Err(e) => return Err(e),
            Ok(()) => {},
        }
        match self.check_key(own) {
            Err(e) => return Err(e),
            Ok(()) => {},
        }
        let i: usize = match self.position(id) {
            Some(i) => i,
            None => return Err(Error::MessageNotFound),
        };
        if self.messages[i].sender != own {
            return Err(Error::InvalidMessage);
        }
        self.messages[i].edit(lines, now);
        Ok(
            Effects {
                save: true,
                event: Some(
                    MessageEventKind::MessageEdited { conversation_id: self.id, message_id: id },
                ),
                mailbox: mailbox_for(self, id),
                publish: Some(
                    Publication {
                        message_id: None,
                        event: Outgoing::Edit { message_id: id, modified: now },
                    },
                ),
                direct: None,
                request_key: None,
                ping: None,
                discover: None,
            },
        )
    }

    /// Deletes a message, for the other members too where `broadcast` is set.
    pub fn delete_message(&mut self, id: Uuid, broadcast: bool) -> (r: Result<Effects, Error>)
        ensures
            delete_message_post(*old(self), *final(self), r, id, broadcast),
            old(self).well_formed() ==> final(self).well_formed(),
    {
        match self.remove_message(id) {
            Err(e) => Err(e),
            Ok(()) => Ok(
                Effects {
                    save: true,
                    event: Some(
                        MessageEventKind::MessageDeleted {
                            conversation_id: self.id,
                            message_id: id,
                        },
                    ),
                    mailbox: Some(MailboxCommand::RemoveMessage { message_id: id }),
                    publish: if broadcast {
                        Some(
                            Publication {
                                message_id: None,
                                event: Outgoing::Delete { message_id: id },
                            },
                        )
                    } else {
                        None
                    },
                    direct: None,
                    request_key: None,
                    ping: None,
                    discover: None,
                },
            ),
        }
    }

    /// Pins or unpins a message. Nothing is left to do where it is in that state.
    pub fn pin_message(
        &mut self,
        own: Did,
        id: Uuid,
        state: PinState,
    ) -> (r: Result<Effects, Error>)
        ensures
            pin_message_post(*old(self), *final(self), r, own, id, state),
            old(self).well_formed() ==> final(self).well_formed(),
    {
        match self.check_key(own) {
            Err(e) => return Err(e),
            Ok(()) => {},
        }
        let i: usize = match self.position(id) {
            Some(i) => i,
            None => return Err(Error::MessageNotFound),
        };
        let pinned: bool = match state {
            PinState::Pin => true,
            PinState::Unpin => false,
        };
        if self.messages[i].pinned == pinned {
            return Ok(Effects::none());
        }
        self.messages[i].pin(state);
        Ok(
            Effects {
                save: true,
                event: Some(
                    match state {
                        PinState::Pin => MessageEventKind::MessagePinned {
                            conversation_id: self.id,
                            message_id: id,
                        },
                        PinState::Unpin => MessageEventKind::MessageUnpinned {
                            conversation_id: self.id,
                            message_id: id,
                        },
                    },
                ),
                mailbox: mailbox_for(self, id),
                publish: Some(
                    Publication {
                        message_id: None,
                        event: Outgoing::Pin { member: own, message_id: id, state },
                    },
                ),
                direct: None,
                request_key: None,
                ping: None,
                discover: None,
            },
        )
    }

    /// Adds an own reaction to a message or takes it back.
    pub fn react(
        &mut self,
        own: Did,
        id: Uuid,
        state: ReactionState,
        emoji: String,
        limits: Limits,
    ) -> (r: Result<Effects, Error>)
        ensures
            react_post(*old(self), *final(self), r, own, id, state, emoji, limits),
            old(self).well_formed() ==> final(self).well_formed(),
    {
        match self.check_key(own) {
            Err(e) => return Err(e),
            Ok(()) => {},
        }
        let i: usize = match self.position(id) {
            Some(i) => i,
            None => return Err(Error::MessageNotFound),
        };
        match self.messages[i].check_react(own, state, &emoji, limits.max_reactions) {
            Err(e) => return Err(e),
            Ok(()) => {},
        }
        let _ = self.messages[i].react(own, state, &emoji, limits.max_reactions);
        Ok(
            Effects {
                save: true,
                event: Some(
                    match state {
                        ReactionState::Add => MessageEventKind::MessageReactionAdded {
                            conversation_id: self.id,
                            message_id: id,
                            did_key: own,
                            reaction: emoji.clone(),
                        },
                        ReactionState::Remove => MessageEventKind::MessageReactionRemoved {
                            conversation_id: self.id,
                            message_id: id,
                            did_key: own,
                            reaction: emoji.clone(),
                        },
                    },
                ),
                mailbox: mailbox_for(self, id),
                publish: Some(
                    Publication {
                        message_id: None,
                        event: Outgoing::React { reactor: own, message_id: id, state, emoji },
                    },
                ),
                direct: None,
                request_key: None,
                ping: None,
                discover: None,
            },
        )
    }
}

/// What the subscribers are told of a pin.
pub open spec fn pin_event(
    conversation_id: Uuid,
    message_id: Uuid,
    state: PinState,
) -> MessageEventKind {
    match state {
        PinState::Pin => MessageEventKind::MessagePinned { conversation_id, message_id },
        PinState::Unpin => MessageEventKind::MessageUnpinned { conversation_id, message_id },
    }
}

/// What the subscribers are told of a reaction.
pub open spec fn reaction_event(
    conversation_id: Uuid,
    message_id: Uuid,
    did_key: Did,
    state: ReactionState,
    reaction: String,
) -> MessageEventKind {
    match state {
        ReactionState::Add => MessageEventKind::MessageReactionAdded {
            conversation_id,
            message_id,
            did_key,
            reaction,
        },
        ReactionState::Remove => MessageEventKind::MessageReactionRemoved {
            conversation_id,
            message_id,
            did_key,
            reaction,
        },
    }
}

} // verus!
