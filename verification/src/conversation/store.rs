//! The store of all conversations of the own identity.
use vstd::prelude::*;
use crate::error::{Error, Reason};
use crate::ids::{Cid, Did, Timestamp, Uuid};
use super::chat;
use super::document::{self, ConversationDocument};
use super::exchange;
use super::incoming::{self, Keeper, MessagingEvents};
use super::info::{self, ImageSource};
use super::keys::{self, Keystore};
use super::lifecycle;
use super::mailbox::{self, MailboxMessage};
use super::members::{self, GroupPermissionOpt};
use super::message::{self, check_lines, Message};
use super::queue::{self, Queue};
use super::{
    ConversationImageType, Effects, Limits, MessageEventKind, PinState, RayGunEventKind,
    ReactionState,
};

verus! {

/// The keystore of a group.
pub struct StoredKeystore {
    pub id: Uuid,
    pub keystore: Keystore,
}

/// A payload that waits for the key of its sender, and whether the key has come.
pub struct PendingPayload {
    pub did: Did,
    pub data: Vec<u8>,
    pub received: bool,
}

/// The payloads of a conversation that wait for keys.
pub struct PendingList {
    pub id: Uuid,
    pub list: Vec<PendingPayload>,
}

pub struct ConversationInner {
    /// The own identity.
    pub own: Did,
    pub conversations: Vec<ConversationDocument>,
    pub keystores: Vec<StoredKeystore>,
    /// The conversations that are open.
    pub open: Vec<Uuid>,
    pub pending_key_exchange: Vec<PendingList>,
    pub queue: Queue,
    pub limits: Limits,
}

/// Whether a conversation is there.
pub open spec fn has_conversation(conversations: Seq<ConversationDocument>, id: Uuid) -> bool {
    exists|i: int| 0 <= i < conversations.len() && (#[trigger] conversations[i]).id == id
}

/// Whether `i` is the first position of a conversation.
pub open spec fn is_conversation_at(
    conversations: Seq<ConversationDocument>,
    id: Uuid,
    i: int,
) -> bool {
    &&& 0 <= i < conversations.len()
    &&& conversations[i].id == id
    &&& forall|j: int| 0 <= j < i ==> (#[trigger] conversations[j]).id != id
}

/// The first position of a conversation.
pub open spec fn conversation_index(conversations: Seq<ConversationDocument>, id: Uuid) -> int {
    choose|i: int| is_conversation_at(conversations, id, i)
}

/// Nothing but the conversation at `i` changed.
pub open spec fn only_changed(
    before: ConversationInner,
    after: ConversationInner,
    i: int,
) -> bool {
    &&& after.conversations@ == before.conversations@.update(i, after.conversations@[i])
    &&& after == (ConversationInner { conversations: after.conversations, ..before })
}

proof fn lemma_conversation_index(
    conversations: Seq<ConversationDocument>,
    id: Uuid,
    i: int,
)
    requires
        is_conversation_at(conversations, id, i),
    ensures
        has_conversation(conversations, id),
        conversation_index(conversations, id) == i,
{
    let k = conversation_index(conversations, id);
    assert(is_conversation_at(conversations, id, k));
    assert(conversations[i].id == id && conversations[k].id == id);
}

/// Where a conversation is there, its index is a position of it.
pub proof fn lemma_has_conversation(conversations: Seq<ConversationDocument>, id: Uuid)
    requires
        has_conversation(conversations, id),
    ensures
        is_conversation_at(conversations, id, conversation_index(conversations, id)),
{
    let i = choose|i: int| 0 <= i < conversations.len() && (#[trigger] conversations[i]).id == id;
    lemma_first_from(conversations, id, i);
}

/// Conversations with the same identifiers have the same positions.
pub proof fn lemma_same_index(
    before: Seq<ConversationDocument>,
    after: Seq<ConversationDocument>,
    id: Uuid,
)
    requires
        has_conversation(before, id),
        before.len() == after.len(),
        forall|i: int| 0 <= i < before.len() ==> (#[trigger] after[i]).id == before[i].id,
    ensures
        has_conversation(after, id),
        conversation_index(after, id) == conversation_index(before, id),
{
    lemma_has_conversation(before, id);
    let i = conversation_index(before, id);
    assert(is_conversation_at(after, id, i));
    lemma_conversation_index(after, id, i);
}

proof fn lemma_first_from(conversations: Seq<ConversationDocument>, id: Uuid, i: int)
    requires
        0 <= i < conversations.len(),
        conversations[i].id == id,
    ensures
        exists|k: int| is_conversation_at(conversations, id, k),
    decreases i,
{
    if exists|j: int| 0 <= j < i && (#[trigger] conversations[j]).id == id {
        let j = choose|j: int| 0 <= j < i && (#[trigger] conversations[j]).id == id;
        lemma_first_from(conversations, id, j);
    } else {
        assert(is_conversation_at(conversations, id, i));
    }
}

/// Why a message is refused in a group whose keystore is missing.
pub open spec fn keyless_refusal(lines: Seq<String>, limits: Limits) -> Error {
    match message::lines_refusal(lines, limits.min_message_size, limits.max_message_size) {
        Some(e) => e,
        None => Error::OtherWithContext(Reason::KeystoreMissing),
    }
}

/// The store, with what `add_recipient` does to it.
pub open spec fn add_recipient_post(
    before: ConversationDocument,
    after: ConversationDocument,
    r: Result<Effects, Error>,
    own: Did,
    did: Did,
    blocked: bool,
) -> bool {
    let asked = match r {
        Ok(effects) => Ok::<Effects, Error>(Effects { request_key: None, ..effects }),
        Err(e) => Err(e),
    };
    &&& members::add_participant_post(before, after, asked, own, did, blocked)
    &&& match r {
        Ok(effects) => effects.request_key == Some(did),
        Err(_) => true,
    }
}

/// Whether an event carries another conversation than the one by whose topic it came.
pub open spec fn is_misplaced(event: MessagingEvents, conversation_id: Uuid) -> bool {
    event matches MessagingEvents::UpdateConversation { conversation, .. } && conversation.id
        != conversation_id
}

/// What an event does that carries another conversation than the one by whose topic it came. It is
/// judged by the one, and stored as the other.
pub open spec fn misplaced_post(
    before: ConversationInner,
    after: ConversationInner,
    r: Result<Effects, Error>,
    conversation_id: Uuid,
    sender: Did,
    event: MessagingEvents,
    genuine: bool,
) -> bool {
    exists|copy: ConversationDocument, updated: ConversationDocument|
        {
            &&& #[trigger] document::same_document(
                copy,
                before.conversations@[conversation_index(before.conversations@, conversation_id)],
            )
            &&& #[trigger] incoming::message_event_post(
                copy,
                updated,
                r,
                before.own,
                sender,
                event,
                genuine,
                Keeper::Store,
                before.limits,
            )
            &&& match r {
                Ok(effects) => if effects.save {
                    &&& after.conversations@ == lifecycle::with_conversation(
                        before.conversations@,
                        updated,
                    )
                    &&& after == (ConversationInner {
                        conversations: after.conversations,
                        ..before
                    })
                } else {
                    after == before
                },
                Err(_) => after == before,
            }
        }
}

/// No conversation occurs twice.
pub open spec fn distinct_conversations(conversations: Seq<ConversationDocument>) -> bool {
    forall|i: int, j: int|
        0 <= i < j < conversations.len() ==> (#[trigger] conversations[i]).id != (
        #[trigger] conversations[j]).id
}

/// Each conversation is well formed.
pub open spec fn all_well_formed(conversations: Seq<ConversationDocument>) -> bool {
    forall|i: int| 0 <= i < conversations.len() ==> (#[trigger] conversations[i]).well_formed()
}

impl ConversationInner {
    /// No conversation and no receiver of the queue occurs twice, and each conversation is well
    /// formed itself.
    pub open spec fn well_formed(self) -> bool {
        &&& distinct_conversations(self.conversations@)
        &&& all_well_formed(self.conversations@)
        &&& self.queue.well_formed()
    }

    /// The position of a conversation.
    pub fn position(&self, id: Uuid) -> (r: Option<usize>)
        ensures
            match r {
                Some(i) => {
                    &&& has_conversation(self.conversations@, id)
                    &&& i == conversation_index(self.conversations@, id)
                    &&& is_conversation_at(self.conversations@, id, i as int)
                },
                None => !has_conversation(self.conversations@, id),
            },
    {
        let mut i: usize = 0;
        while i < self.conversations.len()
            invariant
                i <= self.conversations@.len(),
                forall|j: int| 0 <= j < i ==> (#[trigger] self.conversations@[j]).id != id,
            decreases self.conversations@.len() - i,
        {
            if self.conversations[i].id == id {
                proof {
                    assert(is_conversation_at(self.conversations@, id, i as int));
                    lemma_conversation_index(self.conversations@, id, i as int);
                }
                return Some(i);
            }
            i = i + 1;
        }
        None
    }

    /// Whether a conversation is there.
    pub fn contains(&self, id: Uuid) -> (r: bool)
        ensures
            r == has_conversation(self.conversations@, id),
    {
        self.position(id).is_some()
    }

    /// A conversation.
    pub fn get(&self, id: Uuid) -> (r: Result<&ConversationDocument, Error>)
        ensures
            match r {
                Ok(doc) => has_conversation(self.conversations@, id) && *doc
                    == self.conversations@[conversation_index(self.conversations@, id)],
                Err(e) => !has_conversation(self.conversations@, id) && e
                    == Error::InvalidConversation,
            },
    {
        match self.position(id) {
            Some(i) => Ok(&self.conversations[i]),
            None => Err(Error::InvalidConversation),
        }
    }

    /// Sends a message.
    pub fn send_message(
        &mut self,
        conversation_id: Uuid,
        id: Uuid,
        date: Timestamp,
        lines: Vec<String>,
    ) -> (r: Result<Effects, Error>)
        ensures
            if !has_conversation(old(self).conversations@, conversation_id) {
                r == Err::<Effects, Error>(Error::InvalidConversation) && *final(self) == *old(self)
            } else if exchange::is_keyless(*old(self), conversation_id) {
                &&& r == Err::<Effects, Error>(keyless_refusal(lines@, old(self).limits))
                &&& *final(self) == *old(self)
            } else {
                let i = conversation_index(old(self).conversations@, conversation_id);
                let before = old(self).conversations@[i];
                let after = final(self).conversations@[i];
                &&& only_changed(*old(self), *final(self), i)
                &&& chat::send_message_post(
                    before,
                    after,
                    r,
                    old(self).own,
                    id,
                    date,
                    lines,
                    old(self).limits,
                )
            },
            old(self).well_formed() ==> final(self).well_formed(),
    {
        match self.position(conversation_id) {
            Some(i) => {
                if self.lacks_keystore(i) {
                    return Err(
                        match check_lines(
                            &lines,
                            self.limits.min_message_size,
                            self.limits.max_message_size,
                        ) {
                            Err(e) => e,
                            Ok(()) => Error::OtherWithContext(Reason::KeystoreMissing),
                        },
                    );
                }
                self.conversations[i].send_message(self.own, id, date, lines, self.limits)
            },
            None => Err(Error::InvalidConversation),
        }
    }

    /// Sends an answer to a message.
    pub fn reply_message(
        &mut self,
        conversation_id: Uuid,
        id: Uuid,
        date: Timestamp,
        replied: Uuid,
        lines: Vec<String>,
    ) -> (r: Result<Effects, Error>)
        ensures
            if !has_conversation(old(self).conversations@, conversation_id) {
                r == Err::<Effects, Error>(Error::InvalidConversation) && *final(self) == *old(self)
            } else if exchange::is_keyless(*old(self), conversation_id) {
                &&& r == Err::<Effects, Error>(keyless_refusal(lines@, old(self).limits))
                &&& *final(self) == *old(self)
            } else {
                let i = conversation_index(old(self).conversations@, conversation_id);
                let before = old(self).conversations@[i];
                let after = final(self).conversations@[i];
                &&& only_changed(*old(self), *final(self), i)
                &&& chat::reply_message_post(
                    before,
                    after,
                    r,
                    old(self).own,
                    id,
                    date,
                    replied,
                    lines,
                    old(self).limits,
                )
            },
            old(self).well_formed() ==> final(self).well_formed(),
    {
        match self.position(conversation_id) {
            Some(i) => {
                if self.lacks_keystore(i) {
                    return Err(
                        match check_lines(
                            &lines,
                            self.limits.min_message_size,
                            self.limits.max_message_size,
                        ) {
                            Err(e) => e,
                            Ok(()) => Error::OtherWithContext(Reason::KeystoreMissing),
                        },
                    );
                }
                self.conversations[i].reply_message(
                self.own,
                id,
                date,
                replied,
                lines,
                self.limits,
            )
            },
            None => Err(Error::InvalidConversation),
        }
    }

    /// Puts other lines into an own message.
    pub fn edit_message(
        &mut self,
        conversation_id: Uuid,
        id: Uuid,
        lines: Vec<String>,
        now: Timestamp,
    ) -> (r: Result<Effects, Error>)
        ensures
            if !has_conversation(old(self).conversations@, conversation_id) {
                r == Err::<Effects, Error>(Error::InvalidConversation) && *final(self) == *old(self)
            } else if exchange::is_keyless(*old(self), conversation_id) {
                &&& r == Err::<Effects, Error>(keyless_refusal(lines@, old(self).limits))
                &&& *final(self) == *old(self)
            } else {
                let i = conversation_index(old(self).conversations@, conversation_id);
                let before = old(self).conversations@[i];
                let after = final(self).conversations@[i];
                &&& only_changed(*old(self), *final(self), i)
                &&& chat::edit_message_post(
                    before,
                    after,
                    r,
                    old(self).own,
                    id,
                    lines,
                    now,
                    old(self).limits,
                )
            },
            old(self).well_formed() ==> final(self).well_formed(),
    {
        match self.position(conversation_id) {
            Some(i) => {
                if self.lacks_keystore(i) {
                    return Err(
                        match check_lines(
                            &lines,
                            self.limits.min_message_size,
                            self.limits.max_message_size,
                        ) {
                            Err(e) => e,
                            Ok(()) => Error::OtherWithContext(Reason::KeystoreMissing),
                        },
                    );
                }
                self.conversations[i].edit_message(self.own, id, lines, now, self.limits)
            },
            None => Err(Error::InvalidConversation),
        }
    }

    /// Deletes a message, for the other members too where `broadcast` is set.
    pub fn delete_message(
        &mut self,
        conversation_id: Uuid,
        id: Uuid,
        broadcast: bool,
    ) -> (r: Result<Effects, Error>)
        ensures
            if !has_conversation(old(self).conversations@, conversation_id) {
                r == Err::<Effects, Error>(Error::InvalidConversation) && *final(self) == *old(self)
            } else {
                let i = conversation_index(old(self).conversations@, conversation_id);
                let before = old(self).conversations@[i];
                let after = final(self).conversations@[i];
                &&& only_changed(*old(self), *final(self), i)
                &&& chat::delete_message_post(before, after, r, id, broadcast)
            },
            old(self).well_formed() ==> final(self).well_formed(),
    {
        match self.position(conversation_id) {
            Some(i) => self.conversations[i].delete_message(id, broadcast),
            None => Err(Error::InvalidConversation),
        }
    }

    /// Pins or unpins a message.
    pub fn pin_message(
        &mut self,
        conversation_id: Uuid,
        id: Uuid,
        state: PinState,
    ) -> (r: Result<Effects, Error>)
        ensures
            if !has_conversation(old(self).conversations@, conversation_id) {
                r == Err::<Effects, Error>(Error::InvalidConversation) && *final(self) == *old(self)
            } else if exchange::is_keyless(*old(self), conversation_id) {
                &&& r == Err::<Effects, Error>(
                    Error::OtherWithContext(Reason::KeystoreMissing),
                )
                &&& *final(self) == *old(self)
            } else {
                let i = conversation_index(old(self).conversations@, conversation_id);
                let before = old(self).conversations@[i];
                let after = final(self).conversations@[i];
                &&& only_changed(*old(self), *final(self), i)
                &&& chat::pin_message_post(before, after, r, old(self).own, id, state)
            },
            old(self).well_formed() ==> final(self).well_formed(),
    {
        match self.position(conversation_id) {
            Some(i) => {
                if self.lacks_keystore(i) {
                    return Err(Error::OtherWithContext(Reason::KeystoreMissing));
                }
                self.conversations[i].pin_message(self.own, id, state)
            },
            None => Err(Error::InvalidConversation),
        }
    }

    /// Adds an own reaction to a message or takes it back.
    pub fn react(
        &mut self,
        conversation_id: Uuid,
        id: Uuid,
        state: ReactionState,
        emoji: String,
    ) -> (r: Result<Effects, Error>)
        ensures
            if !has_conversation(old(self).conversations@, conversation_id) {
                r == Err::<Effects, Error>(Error::InvalidConversation) && *final(self) == *old(self)
            } else if exchange::is_keyless(*old(self), conversation_id) {
                &&& r == Err::<Effects, Error>(
                    Error::OtherWithContext(Reason::KeystoreMissing),
                )
                &&& *final(self) == *old(self)
            } else {
                let i = conversation_index(old(self).conversations@, conversation_id);
                let before = old(self).conversations@[i];
                let after = final(self).conversations@[i];
                &&& only_changed(*old(self), *final(self), i)
                &&& chat::react_post(
                    before,
                    after,
                    r,
                    old(self).own,
                    id,
                    state,
                    emoji,
                    old(self).limits,
                )
            },
            old(self).well_formed() ==> final(self).well_formed(),
    {
        match self.position(conversation_id) {
            Some(i) => {
                if self.lacks_keystore(i) {
                    return Err(Error::OtherWithContext(Reason::KeystoreMissing));
                }
                self.conversations[i].react(self.own, id, state, emoji, self.limits)
            },
            None => Err(Error::InvalidConversation),
        }
    }

    /// Puts in a message whose files are stored.
    pub fn store_direct_for_attachment(
        &mut self,
        conversation_id: Uuid,
        message: Message,
    ) -> (r: Result<Effects, Error>)
        ensures
            if !has_conversation(old(self).conversations@, conversation_id) {
                r == Err::<Effects, Error>(Error::InvalidConversation) && *final(self) == *old(self)
            } else {
                let i = conversation_index(old(self).conversations@, conversation_id);
                let before = old(self).conversations@[i];
                let after = final(self).conversations@[i];
                &&& only_changed(*old(self), *final(self), i)
                &&& chat::store_message_post(before, after, r, message)
            },
            old(self).well_formed() ==> final(self).well_formed(),
    {
        match self.position(conversation_id) {
            Some(i) => self.conversations[i].store_message(message),
            None => Err(Error::InvalidConversation),
        }
    }

    /// Takes a member out, and tells it so where `broadcast` is set.
    pub fn remove_recipient(
        &mut self,
        conversation_id: Uuid,
        did: Did,
        broadcast: bool,
    ) -> (r: Result<Effects, Error>)
        ensures
            if !has_conversation(old(self).conversations@, conversation_id) {
                r == Err::<Effects, Error>(Error::InvalidConversation) && *final(self) == *old(self)
            } else {
                let i = conversation_index(old(self).conversations@, conversation_id);
                let before = old(self).conversations@[i];
                let after = final(self).conversations@[i];
                &&& only_changed(*old(self), *final(self), i)
                &&& members::remove_participant_post(
                    before,
                    after,
                    r,
                    old(self).own,
                    did,
                    broadcast,
                )
            },
            old(self).well_formed() ==> final(self).well_formed(),
    {
        match self.position(conversation_id) {
            Some(i) => self.conversations[i].remove_participant(self.own, did, broadcast),
            None => Err(Error::InvalidConversation),
        }
    }

    /// Keeps a blocked identity out.
    pub fn add_restricted(
        &mut self,
        conversation_id: Uuid,
        did: Did,
        blocked: bool,
    ) -> (r: Result<Effects, Error>)
        ensures
            if !has_conversation(old(self).conversations@, conversation_id) {
                r == Err::<Effects, Error>(Error::InvalidConversation) && *final(self) == *old(self)
            } else {
                let i = conversation_index(old(self).conversations@, conversation_id);
                let before = old(self).conversations@[i];
                let after = final(self).conversations@[i];
                &&& only_changed(*old(self), *final(self), i)
                &&& members::add_restricted_post(before, after, r, old(self).own, did, blocked)
            },
            old(self).well_formed() ==> final(self).well_formed(),
    {
        match self.position(conversation_id) {
            Some(i) => self.conversations[i].add_restricted(self.own, did, blocked),
            None => Err(Error::InvalidConversation),
        }
    }

    /// No longer keeps an identity out.
    pub fn remove_restricted(
        &mut self,
        conversation_id: Uuid,
        did: Did,
        blocked: bool,
    ) -> (r: Result<Effects, Error>)
        ensures
            if !has_conversation(old(self).conversations@, conversation_id) {
                r == Err::<Effects, Error>(Error::InvalidConversation) && *final(self) == *old(self)
            } else {
                let i = conversation_index(old(self).conversations@, conversation_id);
                let before = old(self).conversations@[i];
                let after = final(self).conversations@[i];
                &&& only_changed(*old(self), *final(self), i)
                &&& members::remove_restricted_post(
                    before,
                    after,
                    r,
                    old(self).own,
                    did,
                    blocked,
                )
            },
            old(self).well_formed() ==> final(self).well_formed(),
    {
        match self.position(conversation_id) {
            Some(i) => self.conversations[i].remove_restricted(self.own, did, blocked),
            None => Err(Error::InvalidConversation),
        }
    }

    /// Notes that a member leaves.
    pub fn leave_conversation(
        &mut self,
        conversation_id: Uuid,
        member: Did,
        signature: String,
        genuine: bool,
    ) -> (r: Result<Effects, Error>)
        ensures
            if !has_conversation(old(self).conversations@, conversation_id) {
                r == Err::<Effects, Error>(Error::InvalidConversation) && *final(self) == *old(self)
            } else {
                let i = conversation_index(old(self).conversations@, conversation_id);
                let before = old(self).conversations@[i];
                let after = final(self).conversations@[i];
                &&& only_changed(*old(self), *final(self), i)
                &&& members::add_exclusion_post(
                    before,
                    after,
                    r,
                    old(self).own,
                    member,
                    signature,
                    genuine,
                )
            },
            old(self).well_formed() ==> final(self).well_formed(),
    {
        match self.position(conversation_id) {
            Some(i) => self.conversations[i].add_exclusion(self.own, member, signature, genuine),
            None => Err(Error::InvalidConversation),
        }
    }

    /// Changes the permissions.
    pub fn update_conversation_permissions(
        &mut self,
        conversation_id: Uuid,
        permissions: GroupPermissionOpt,
    ) -> (r: Result<Effects, Error>)
        ensures
            if !has_conversation(old(self).conversations@, conversation_id) {
                r == Err::<Effects, Error>(Error::InvalidConversation) && *final(self) == *old(self)
            } else {
                let i = conversation_index(old(self).conversations@, conversation_id);
                let before = old(self).conversations@[i];
                let after = final(self).conversations@[i];
                &&& only_changed(*old(self), *final(self), i)
                &&& members::update_permissions_post(
                    before,
                    after,
                    r,
                    old(self).own,
                    permissions,
                )
            },
            old(self).well_formed() ==> final(self).well_formed(),
    {
        match self.position(conversation_id) {
            Some(i) => self.conversations[i].update_permissions(self.own, permissions),
            None => Err(Error::InvalidConversation),
        }
    }

    /// Names a group.
    pub fn update_conversation_name(
        &mut self,
        conversation_id: Uuid,
        name: &str,
    ) -> (r: Result<Effects, Error>)
        ensures
            if !has_conversation(old(self).conversations@, conversation_id) {
                r == Err::<Effects, Error>(Error::InvalidConversation) && *final(self) == *old(self)
            } else {
                let i = conversation_index(old(self).conversations@, conversation_id);
                let before = old(self).conversations@[i];
                let after = final(self).conversations@[i];
                &&& only_changed(*old(self), *final(self), i)
                &&& info::update_name_post(before, after, r, old(self).own, name@)
            },
            old(self).well_formed() ==> final(self).well_formed(),
    {
        match self.position(conversation_id) {
            Some(i) => self.conversations[i].update_name(self.own, name),
            None => Err(Error::InvalidConversation),
        }
    }

    /// Describes a conversation.
    pub fn set_description(
        &mut self,
        conversation_id: Uuid,
        description: Option<String>,
    ) -> (r: Result<Effects, Error>)
        ensures
            if !has_conversation(old(self).conversations@, conversation_id) {
                r == Err::<Effects, Error>(Error::InvalidConversation) && *final(self) == *old(self)
            } else {
                let i = conversation_index(old(self).conversations@, conversation_id);
                let before = old(self).conversations@[i];
                let after = final(self).conversations@[i];
                &&& only_changed(*old(self), *final(self), i)
                &&& info::set_description_post(
                    before,
                    after,
                    r,
                    old(self).own,
                    description,
                    old(self).limits,
                )
            },
            old(self).well_formed() ==> final(self).well_formed(),
    {
        match self.position(conversation_id) {
            Some(i) => self.conversations[i].set_description(self.own, description, self.limits),
            None => Err(Error::InvalidConversation),
        }
    }

    /// Takes an image away.
    pub fn remove_conversation_image(
        &mut self,
        conversation_id: Uuid,
        image_type: ConversationImageType,
    ) -> (r: Result<Effects, Error>)
        ensures
            if !has_conversation(old(self).conversations@, conversation_id) {
                r == Err::<Effects, Error>(Error::InvalidConversation) && *final(self) == *old(self)
            } else {
                let i = conversation_index(old(self).conversations@, conversation_id);
                let before = old(self).conversations@[i];
                let after = final(self).conversations@[i];
                &&& only_changed(*old(self), *final(self), i)
                &&& info::remove_conversation_image_post(
                    before,
                    after,
                    r,
                    old(self).own,
                    image_type,
                )
            },
            old(self).well_formed() ==> final(self).well_formed(),
    {
        match self.position(conversation_id) {
            Some(i) => self.conversations[i].remove_conversation_image(self.own, image_type),
            None => Err(Error::InvalidConversation),
        }
    }

    /// Refers to an image that was prepared from `source` and stored as `cid`, unless it is refused.
    pub fn update_conversation_image(
        &mut self,
        conversation_id: Uuid,
        image_type: ConversationImageType,
        source: &ImageSource,
        cid: Cid,
    ) -> (r: Result<Effects, Error>)
        ensures
            if !has_conversation(old(self).conversations@, conversation_id) {
                r == Err::<Effects, Error>(Error::InvalidConversation) && *final(self) == *old(
                    self,
                )
            } else {
                let i = conversation_index(old(self).conversations@, conversation_id);
                let before = old(self).conversations@[i];
                let after = final(self).conversations@[i];
                &&& only_changed(*old(self), *final(self), i)
                &&& info::update_conversation_image_post(
                    before,
                    after,
                    r,
                    old(self).own,
                    image_type,
                    *source,
                    cid,
                    old(self).limits,
                    Keeper::Store,
                )
            },
            old(self).well_formed() ==> final(self).well_formed(),
    {
        match self.position(conversation_id) {
            Some(i) => self.conversations[i].update_conversation_image(
                self.own,
                image_type,
                source,
                cid,
                self.limits,
                Keeper::Store,
            ),
            None => Err(Error::InvalidConversation),
        }
    }

    /// Files a conversation away.
    pub fn archived_conversation(
        &mut self,
        conversation_id: Uuid,
    ) -> (r: Result<Option<RayGunEventKind>, Error>)
        ensures
            if !has_conversation(old(self).conversations@, conversation_id) {
                r == Err::<Option<RayGunEventKind>, Error>(Error::InvalidConversation) && *final(self) == *old(
                    self,
                )
            } else {
                let i = conversation_index(old(self).conversations@, conversation_id);
                let before = old(self).conversations@[i];
                let after = final(self).conversations@[i];
                &&& only_changed(*old(self), *final(self), i)
                &&& r matches Ok(told)
                &&& info::archived_conversation_post(before, after, told)
            },
            old(self).well_formed() ==> final(self).well_formed(),
    {
        match self.position(conversation_id) {
            Some(i) => Ok(self.conversations[i].archived_conversation()),
            None => Err(Error::InvalidConversation),
        }
    }

    /// Takes a conversation back from the archive.
    pub fn unarchived_conversation(
        &mut self,
        conversation_id: Uuid,
    ) -> (r: Result<Option<RayGunEventKind>, Error>)
        ensures
            if !has_conversation(old(self).conversations@, conversation_id) {
                r == Err::<Option<RayGunEventKind>, Error>(Error::InvalidConversation) && *final(self) == *old(
                    self,
                )
            } else {
                let i = conversation_index(old(self).conversations@, conversation_id);
                let before = old(self).conversations@[i];
                let after = final(self).conversations@[i];
                &&& only_changed(*old(self), *final(self), i)
                &&& r matches Ok(told)
                &&& info::unarchived_conversation_post(before, after, told)
            },
            old(self).well_formed() ==> final(self).well_formed(),
    {
        match self.position(conversation_id) {
            Some(i) => Ok(self.conversations[i].unarchived_conversation()),
            None => Err(Error::InvalidConversation),
        }
    }

    /// Marks a conversation as a favorite or no longer.
    pub fn set_favorite_conversation(
        &mut self,
        conversation_id: Uuid,
        favorite: bool,
    ) -> (r: Result<(), Error>)
        ensures
            if !has_conversation(old(self).conversations@, conversation_id) {
                r == Err::<(), Error>(Error::InvalidConversation) && *final(self) == *old(
                    self,
                )
            } else {
                let i = conversation_index(old(self).conversations@, conversation_id);
                let before = old(self).conversations@[i];
                let after = final(self).conversations@[i];
                &&& only_changed(*old(self), *final(self), i)
                &&& r matches Ok(told)
                &&& after == (ConversationDocument { favorite, ..before })
            },
            old(self).well_formed() ==> final(self).well_formed(),
    {
        match self.position(conversation_id) {
            Some(i) => Ok(self.conversations[i].set_favorite_conversation(favorite)),
            None => Err(Error::InvalidConversation),
        }
    }

    /// Puts messages from a mailbox in. Returns what the subscribers are told.
    pub fn insert_messages_from_mailbox(
        &mut self,
        conversation_id: Uuid,
        incoming: Vec<MailboxMessage>,
    ) -> (r: Result<Vec<MessageEventKind>, Error>)
        ensures
            if !has_conversation(old(self).conversations@, conversation_id) {
                r == Err::<Vec<MessageEventKind>, Error>(Error::InvalidConversation) && *final(self) == *old(
                    self,
                )
            } else {
                let i = conversation_index(old(self).conversations@, conversation_id);
                let before = old(self).conversations@[i];
                let after = final(self).conversations@[i];
                &&& only_changed(*old(self), *final(self), i)
                &&& r matches Ok(told)
                &&& mailbox::insert_messages_from_mailbox_post(before, after, told@, incoming@)
            },
            old(self).well_formed() ==> final(self).well_formed(),
    {
        match self.position(conversation_id) {
            Some(i) => Ok(self.conversations[i].insert_messages_from_mailbox(incoming)),
            None => Err(Error::InvalidConversation),
        }
    }

    /// Takes a member in. It is asked for its key.
    pub fn add_recipient(&mut self, conversation_id: Uuid, did: Did, blocked: bool) -> (r: Result<
        Effects,
        Error,
    >)
        ensures
            if !has_conversation(old(self).conversations@, conversation_id) {
                r == Err::<Effects, Error>(Error::InvalidConversation) && *final(self) == *old(self)
            } else {
                let i = conversation_index(old(self).conversations@, conversation_id);
                let before = old(self).conversations@[i];
                let after = final(self).conversations@[i];
                &&& only_changed(*old(self), *final(self), i)
                &&& add_recipient_post(before, after, r, old(self).own, did, blocked)
            },
            old(self).well_formed() ==> final(self).well_formed(),
    {
        match self.position(conversation_id) {
            Some(i) => match self.conversations[i].add_participant(self.own, did, blocked) {
                Ok(effects) => {
                    let mut effects = effects;
                    effects.request_key = Some(did);
                    Ok(effects)
                },
                Err(e) => Err(e),
            },
            None => Err(Error::InvalidConversation),
        }
    }

    /// Takes an event of another member. An update that carries another conversation than the one
    /// that it came for is judged by the latter and stored as the former.
    pub fn message_event(
        &mut self,
        conversation_id: Uuid,
        sender: Did,
        event: MessagingEvents,
        genuine: bool,
    ) -> (r: Result<Effects, Error>)
        ensures
            if !has_conversation(old(self).conversations@, conversation_id) {
                r == Err::<Effects, Error>(Error::InvalidConversation) && *final(self) == *old(self)
            } else if exchange::is_keyless(*old(self), conversation_id) {
                &&& r == Err::<Effects, Error>(
                    Error::OtherWithContext(Reason::KeystoreMissing),
                )
                &&& *final(self) == *old(self)
            } else if is_misplaced(event, conversation_id) {
                misplaced_post(
                    *old(self),
                    *final(self),
                    r,
                    conversation_id,
                    sender,
                    event,
                    genuine,
                )
            } else {
                let i = conversation_index(old(self).conversations@, conversation_id);
                let before = old(self).conversations@[i];
                let after = final(self).conversations@[i];
                &&& only_changed(*old(self), *final(self), i)
                &&& incoming::message_event_post(
                    before,
                    after,
                    r,
                    old(self).own,
                    sender,
                    event,
                    genuine,
                    Keeper::Store,
                    old(self).limits,
                )
            },
            old(self).well_formed() ==> final(self).well_formed(),
    {
        let i: usize = match self.position(conversation_id) {
            Some(i) => i,
            None => return Err(Error::InvalidConversation),
        };
        if self.lacks_keystore(i) {
            return Err(Error::OtherWithContext(Reason::KeystoreMissing));
        }
        let misplaced: bool = match &event {
            MessagingEvents::UpdateConversation { conversation, .. } => conversation.id
                != conversation_id,
            _ => false,
        };
        if misplaced {
            return self.misplaced_event(i, sender, event, genuine);
        }
        self.conversations[i].message_event(
            self.own,
            sender,
            event,
            genuine,
            Keeper::Store,
            self.limits,
        )
    }

    /// Takes an update that comes by the topic of one conversation and carries another: what is
    /// stored is the carried one, with what the own copy of the first knows.
    fn misplaced_event(
        &mut self,
        i: usize,
        sender: Did,
        event: MessagingEvents,
        genuine: bool,
    ) -> (r: Result<Effects, Error>)
        requires
            i < old(self).conversations@.len(),
            is_conversation_at(
                old(self).conversations@,
                old(self).conversations@[i as int].id,
                i as int,
            ),
        ensures
            misplaced_post(
                *old(self),
                *final(self),
                r,
                old(self).conversations@[i as int].id,
                sender,
                event,
                genuine,
            ),
            old(self).well_formed() ==> final(self).well_formed(),
    {
        let ghost id = self.conversations@[i as int].id;
        proof {
            lemma_conversation_index(self.conversations@, id, i as int);
        }
        let mut updated = self.conversations[i].copy();
        let ghost copy = updated;
        let r = updated.message_event(
            self.own,
            sender,
            event,
            genuine,
            Keeper::Store,
            self.limits,
        );
        let ghost stored = updated;
        let saved: bool = match &r {
            Ok(effects) => effects.save,
            Err(_) => false,
        };
        if saved {
            self.set_document(updated);
        }
        assert(document::same_document(copy, old(self).conversations@[i as int])
            && incoming::message_event_post(
            copy,
            stored,
            r,
            old(self).own,
            sender,
            event,
            genuine,
            Keeper::Store,
            old(self).limits,
        ));
        r
    }
}

} // verus!
