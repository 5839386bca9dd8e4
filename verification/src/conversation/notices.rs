//! What other identities, and changes among them, do to the conversations of the store.
use vstd::prelude::*;
use crate::error::{Error, Reason};
use crate::ids::{self, contains_did, copy_dids, without_did, Did, Uuid};
use super::document::ConversationDocument;
use super::lifecycle::{self, Deleted};
use super::members;
use super::store::{self, ConversationInner};
use super::{ConversationType, Effects, RayGunEventKind};

verus! {

/// What another identity tells of a conversation, outside its topic.
#[allow(inconsistent_fields)]
pub enum ConversationEvents {
    NewConversation { recipient: Did },
    NewGroupConversation { conversation: ConversationDocument },
    LeaveConversation { conversation_id: Uuid, recipient: Did, signature: String },
    DeleteConversation { conversation_id: Uuid },
}

/// Whether the conversation that an event carries is well formed.
pub open spec fn is_well_formed(event: ConversationEvents) -> bool {
    event matches ConversationEvents::NewGroupConversation { conversation }
        ==> conversation.well_formed()
}

/// What is known of an event besides what it says.
pub struct Circumstances {
    /// The identity that sent it.
    pub sender: Did,
    /// The identifier that a direct conversation with `recipient` of a new one has.
    pub shared_id: Uuid,
    /// Whether the own identity has blocked the one that a new conversation is with.
    pub blocked: bool,
    /// Whether the signature is genuine: that of a group, or of a member who leaves.
    pub genuine: bool,
    /// A key for a new keystore.
    pub fresh_key: Vec<u8>,
}

/// What came of an event.
pub enum Outcome {
    /// The conversation was there, or is none of the own identity.
    Ignored,
    /// A conversation was opened. Each of these is asked for its key, and the subscribers are told.
    Opened { event: RayGunEventKind, request_keys: Vec<Did> },
    Left(Effects),
    Deleted(Deleted),
}

/// What is left to do after an event.
pub struct Notice {
    /// These are looked for in the network, where they are not known there yet, first of all.
    pub discover: Vec<Did>,
    pub outcome: Result<Outcome, Error>,
}

/// The store after a group that someone else announced was opened.
pub open spec fn is_joined(
    before: ConversationInner,
    after: ConversationInner,
    conversation: ConversationDocument,
    fresh_key: Vec<u8>,
) -> bool {
    exists|doc: ConversationDocument|
        {
            &&& doc == (ConversationDocument {
                messages: doc.messages,
                archived: false,
                favorite: false,
                ..conversation
            })
            &&& doc.messages@.len() == 0
            &&& #[trigger] lifecycle::is_put_in(before, after, doc, fresh_key)
        }
}

/// Whether an identity may delete a conversation for all in it: anyone in a direct one, and the
/// creator of a group.
pub open spec fn may_delete(doc: ConversationDocument, sender: Did) -> bool {
    match doc.conversation_type {
        ConversationType::Direct => doc.spec_recipients().contains(sender),
        ConversationType::Group => doc.creator == Some(sender),
    }
}

/// Why a deletion that an identity tells of is refused.
pub open spec fn deletion_refusal(
    inner: ConversationInner,
    id: Uuid,
    sender: Did,
) -> Option<Error> {
    if !store::has_conversation(inner.conversations@, id) {
        Some(Error::OtherWithContext(Reason::UnknownConversation { conversation_id: id }))
    } else if !may_delete(
        inner.conversations@[store::conversation_index(inner.conversations@, id)],
        sender,
    ) {
        Some(Error::OtherWithContext(Reason::DeleteNotAllowed))
    } else {
        None
    }
}

/// What `ConversationInner::process_conversation` does.
pub open spec fn process_conversation_post(
    before: ConversationInner,
    after: ConversationInner,
    r: Notice,
    event: ConversationEvents,
    about: Circumstances,
) -> bool {
    match event {
        ConversationEvents::NewConversation { recipient } => {
            &&& r.discover@.len() == 0
            &&& if store::has_conversation(before.conversations@, about.shared_id) {
                r.outcome == Ok::<Outcome, Error>(Outcome::Ignored) && after == before
            } else if about.blocked {
                r.outcome == Err::<Outcome, Error>(Error::PublicKeyIsBlocked) && after == before
            } else {
                &&& lifecycle::is_opened_direct(before, after, about.shared_id, recipient)
                &&& r.outcome matches Ok(Outcome::Opened { event, request_keys })
                &&& event == RayGunEventKind::ConversationCreated {
                    conversation_id: about.shared_id,
                }
                &&& request_keys@.len() == 0
            }
        },
        ConversationEvents::NewGroupConversation { conversation } => if store::has_conversation(
            before.conversations@,
            conversation.id,
        ) || !conversation.recipients@.contains(before.own) {
            &&& r.discover@.len() == 0
            &&& r.outcome == Ok::<Outcome, Error>(Outcome::Ignored)
            &&& after == before
        } else {
            &&& r.discover@ == conversation.recipients@
            &&& if !about.genuine {
                &&& r.outcome == Err::<Outcome, Error>(
                    Error::OtherWithContext(Reason::InvalidSignature),
                )
                &&& after == before
            } else {
                &&& is_joined(before, after, conversation, about.fresh_key)
                &&& r.outcome matches Ok(Outcome::Opened { event, request_keys })
                &&& event == RayGunEventKind::ConversationCreated {
                    conversation_id: conversation.id,
                }
                &&& request_keys@ == ids::without(conversation.spec_recipients(), before.own)
            }
        },
        ConversationEvents::LeaveConversation { conversation_id, recipient, signature } => {
            &&& r.discover@.len() == 0
            &&& if !store::has_conversation(before.conversations@, conversation_id) {
                r.outcome == Err::<Outcome, Error>(Error::InvalidConversation) && after == before
            } else {
                let i = store::conversation_index(before.conversations@, conversation_id);
                &&& store::only_changed(before, after, i)
                &&& members::add_exclusion_post(
                    before.conversations@[i],
                    after.conversations@[i],
                    match r.outcome {
                        Ok(Outcome::Left(effects)) => Ok(effects),
                        Ok(_) => Err(Error::Other),
                        Err(e) => Err(e),
                    },
                    before.own,
                    recipient,
                    signature,
                    about.genuine,
                )
                &&& r.outcome is Ok ==> r.outcome->Ok_0 is Left
            }
        },
        ConversationEvents::DeleteConversation { conversation_id } => {
            &&& r.discover@.len() == 0
            &&& match deletion_refusal(before, conversation_id, about.sender) {
                Some(e) => r.outcome == Err::<Outcome, Error>(e) && after == before,
                None => {
                    &&& lifecycle::delete_conversation_post(
                        before,
                        after,
                        match r.outcome {
                            Ok(Outcome::Deleted(deleted)) => Ok(deleted),
                            Ok(_) => Err(Error::Other),
                            Err(e) => Err(e),
                        },
                        conversation_id,
                        false,
                    )
                    &&& r.outcome is Ok ==> r.outcome->Ok_0 is Deleted
                },
            }
        },
    }
}

impl ConversationInner {
    /// Takes in what another identity tells of a conversation.
    pub fn process_conversation(
        &mut self,
        event: ConversationEvents,
        about: Circumstances,
    ) -> (r: Notice)
        ensures
            process_conversation_post(*old(self), *final(self), r, event, about),
            old(self).well_formed() && is_well_formed(event) ==> final(self).well_formed(),
    {
        match event {
            ConversationEvents::NewConversation { recipient } => Notice {
                discover: Vec::new(),
                outcome: self.conversation_announced(recipient, &about),
            },
            ConversationEvents::NewGroupConversation { conversation } => self.group_announced(
                conversation,
                about,
            ),
            ConversationEvents::LeaveConversation { conversation_id, recipient, signature } => {
                let outcome = match self.leave_conversation(
                    conversation_id,
                    recipient,
                    signature,
                    about.genuine,
                ) {
                    Ok(effects) => Ok(Outcome::Left(effects)),
                    Err(e) => Err(e),
                };
                Notice { discover: Vec::new(), outcome }
            },
            ConversationEvents::DeleteConversation { conversation_id } => {
                let outcome = match self.deletion_announced(conversation_id, about.sender) {
                    Ok(deleted) => Ok(Outcome::Deleted(deleted)),
                    Err(e) => Err(e),
                };
                Notice { discover: Vec::new(), outcome }
            },
        }
    }

    fn conversation_announced(&mut self, recipient: Did, about: &Circumstances) -> (r: Result<
        Outcome,
        Error,
    >)
        ensures
            if store::has_conversation(old(self).conversations@, about.shared_id) {
                r == Ok::<Outcome, Error>(Outcome::Ignored) && *final(self) == *old(self)
            } else if about.blocked {
                r == Err::<Outcome, Error>(Error::PublicKeyIsBlocked) && *final(self) == *old(self)
            } else {
                &&& lifecycle::is_opened_direct(*old(self), *final(self), about.shared_id, recipient)
                &&& r matches Ok(Outcome::Opened { event, request_keys })
                &&& event == RayGunEventKind::ConversationCreated {
                    conversation_id: about.shared_id,
                }
                &&& request_keys@.len() == 0
            },
            old(self).well_formed() ==> final(self).well_formed(),
    {
        if self.contains(about.shared_id) {
            return Ok(Outcome::Ignored);
        }
        if about.blocked {
            return Err(Error::PublicKeyIsBlocked);
        }
        self.open_direct(about.shared_id, recipient);
        Ok(
            Outcome::Opened {
                event: RayGunEventKind::ConversationCreated { conversation_id: about.shared_id },
                request_keys: Vec::new(),
            },
        )
    }

    fn group_announced(
        &mut self,
        conversation: ConversationDocument,
        about: Circumstances,
    ) -> (r: Notice)
        ensures
            process_conversation_post(
                *old(self),
                *final(self),
                r,
                ConversationEvents::NewGroupConversation { conversation },
                about,
            ),
            old(self).well_formed() && conversation.well_formed() ==> final(self).well_formed(),
    {
        let id: Uuid = conversation.id;
        if self.contains(id) || !contains_did(&conversation.recipients, self.own) {
            return Notice { discover: Vec::new(), outcome: Ok(Outcome::Ignored) };
        }
        let discover = copy_dids(&conversation.recipients);
        if !about.genuine {
            return Notice {
                discover,
                outcome: Err(Error::OtherWithContext(Reason::InvalidSignature)),
            };
        }
        let request_keys = without_did(&conversation.recipients(), self.own);
        let mut doc = conversation;
        doc.messages = Vec::new();
        doc.archived = false;
        doc.favorite = false;
        self.open_group(doc, about.fresh_key);
        assert(lifecycle::is_put_in(*old(self), *self, doc, about.fresh_key));
        Notice {
            discover,
            outcome: Ok(
                Outcome::Opened {
                    event: RayGunEventKind::ConversationCreated { conversation_id: id },
                    request_keys,
                },
            ),
        }
    }

    fn deletion_announced(&mut self, id: Uuid, sender: Did) -> (r: Result<Deleted, Error>)
        ensures
            match deletion_refusal(*old(self), id, sender) {
                Some(e) => r == Err::<Deleted, Error>(e) && *final(self) == *old(self),
                None => lifecycle::delete_conversation_post(
                    *old(self),
                    *final(self),
                    r,
                    id,
                    false,
                ),
            },
            old(self).well_formed() ==> final(self).well_formed(),
    {
        let allowed: bool = match self.get(id) {
            Err(_) => return Err(
                Error::OtherWithContext(Reason::UnknownConversation { conversation_id: id }),
            ),
            Ok(doc) => match doc.conversation_type {
                ConversationType::Direct => contains_did(&doc.recipients(), sender),
                ConversationType::Group => match doc.creator {
                    Some(creator) => creator == sender,
                    None => false,
                },
            },
        };
        if !allowed {
            return Err(Error::OtherWithContext(Reason::DeleteNotAllowed));
        }
        self.delete_conversation(id, false)
    }
}

} // verus!
