//! What comes to a conversation from its members outside the topic of its messages: requests and
//! responses, and signs of activity. And what is read of a conversation.
use vstd::prelude::*;
use crate::error::{Error, Reason};
use crate::ids::{Did, Uuid};
use super::document::{self, ConversationDocument};
use super::exchange;
use super::incoming::{self, conversation_event, MessagingEvents};
use super::keys;
use super::message::Message;
use super::store::{self, ConversationInner};
use super::task::{
    self, Answer, ConversationRequestKind, ConversationResponseKind, ConversationTask, FollowUp,
};
use super::{ConversationType, MessageEvent, MessageEventKind, Outgoing};

verus! {

/// What a member asks, or answers.
#[allow(inconsistent_fields)]
pub enum ConversationRequestResponse {
    Request { conversation_id: Uuid, kind: ConversationRequestKind },
    Response { conversation_id: Uuid, kind: ConversationResponseKind },
}

/// What follows from a request or a response.
pub enum Exchanged {
    Answer(Answer),
    FollowUp(FollowUp),
}

/// What a request leads to.
pub open spec fn as_answer(r: Result<Exchanged, Error>) -> Result<Answer, Error> {
    match r {
        Ok(Exchanged::Answer(answer)) => Ok(answer),
        Ok(Exchanged::FollowUp(_)) => Err(Error::Other),
        Err(e) => Err(e),
    }
}

/// What a response leads to.
pub open spec fn as_follow_up(r: Result<Exchanged, Error>) -> Result<FollowUp, Error> {
    match r {
        Ok(Exchanged::FollowUp(follow_up)) => Ok(follow_up),
        Ok(Exchanged::Answer(_)) => Err(Error::Other),
        Err(e) => Err(e),
    }
}

/// What `ConversationTask::process_request_response_event` does.
pub open spec fn task_exchange_post(
    before: ConversationTask,
    after: ConversationTask,
    r: Result<Exchanged, Error>,
    sender: Did,
    event: ConversationRequestResponse,
    fresh_key: Vec<u8>,
) -> bool {
    match event {
        ConversationRequestResponse::Request { kind, .. } => {
            &&& r is Ok ==> r->Ok_0 is Answer
            &&& task::answer_request_post(before, after, as_answer(r), sender, kind, fresh_key)
        },
        ConversationRequestResponse::Response { kind, .. } => {
            &&& r is Ok ==> r->Ok_0 is FollowUp
            &&& task::take_response_post(before, after, as_follow_up(r), sender, kind)
        },
    }
}

/// What `ConversationInner::process_request_response_event` does. The keystore is that of the
/// conversation which the request or the response speaks of.
pub open spec fn store_exchange_post(
    before: ConversationInner,
    after: ConversationInner,
    r: Result<Exchanged, Error>,
    id: Uuid,
    sender: Did,
    event: ConversationRequestResponse,
    fresh_key: Vec<u8>,
) -> bool {
    match event {
        ConversationRequestResponse::Request { conversation_id, kind } => {
            &&& r is Ok ==> r->Ok_0 is Answer
            &&& exchange::answer_request_post(
                before,
                after,
                as_answer(r),
                id,
                conversation_id,
                sender,
                kind,
                fresh_key,
            )
        },
        ConversationRequestResponse::Response { conversation_id, kind } => {
            &&& r is Ok ==> r->Ok_0 is FollowUp
            &&& exchange::take_response_post(
                before,
                after,
                as_follow_up(r),
                id,
                conversation_id,
                sender,
                kind,
            )
        },
    }
}

/// Why a task has no key of a member, or of the own identity.
pub open spec fn task_key_refusal(task: ConversationTask, member: Option<Did>) -> Option<Error> {
    let holder = match member {
        Some(m) => m,
        None => task.own,
    };
    match task.document.conversation_type {
        ConversationType::Direct => if task.document.counterpart(task.own) is None {
            Some(Error::InvalidConversation)
        } else {
            None
        },
        ConversationType::Group => if keys::latest_key(task.keystore.keys@, holder) is None {
            Some(Error::PublicKeyDoesntExist)
        } else {
            None
        },
    }
}

impl ConversationTask {
    /// Takes a request or a response of another member.
    pub fn process_request_response_event(
        &mut self,
        sender: Did,
        event: ConversationRequestResponse,
        fresh_key: Vec<u8>,
    ) -> (r: Result<Exchanged, Error>)
        ensures
            task_exchange_post(*old(self), *final(self), r, sender, event, fresh_key),
            old(self).well_formed() ==> final(self).well_formed(),
    {
        match event {
            ConversationRequestResponse::Request { kind, .. } => match self.answer_request(
                sender,
                kind,
                fresh_key,
            ) {
                Ok(answer) => Ok(Exchanged::Answer(answer)),
                Err(e) => Err(e),
            },
            ConversationRequestResponse::Response { kind, .. } => match self.take_response(
                sender,
                kind,
            ) {
                Ok(follow_up) => Ok(Exchanged::FollowUp(follow_up)),
                Err(e) => Err(e),
            },
        }
    }

    /// Takes a sign of activity, for which the key of its sender has to be there.
    pub fn process_conversation_event(&self, sender: Did, event: MessagingEvents) -> (r: Result<
        MessageEventKind,
        Error,
    >)
        ensures
            match task_key_refusal(*self, Some(sender)) {
                Some(e) => r == Err::<MessageEventKind, Error>(e),
                None => r == incoming::activity_event(event),
            },
    {
        match self.conversation_key(Some(sender)) {
            Err(e) => Err(e),
            Ok(_) => conversation_event(event),
        }
    }

    /// Tells the other members of an activity.
    pub fn send_event(&self, event: MessageEvent) -> (r: Result<Outgoing, Error>)
        ensures
            r == (match task_key_refusal(*self, None) {
                Some(e) => Err::<Outgoing, Error>(e),
                None => Ok(Outgoing::Event { member: self.own, event, cancelled: false }),
            }),
    {
        self.activity(event, false)
    }

    /// Tells the other members that an activity has ended.
    pub fn cancel_event(&self, event: MessageEvent) -> (r: Result<Outgoing, Error>)
        ensures
            r == (match task_key_refusal(*self, None) {
                Some(e) => Err::<Outgoing, Error>(e),
                None => Ok(Outgoing::Event { member: self.own, event, cancelled: true }),
            }),
    {
        self.activity(event, true)
    }

    /// The messages, as far as they can be read.
    pub fn get_messages(&self) -> (r: Result<&Vec<Message>, Error>)
        ensures
            r == (match self.document.key_refusal(self.own) {
                Some(e) => Err::<&Vec<Message>, Error>(e),
                None => Ok(&self.document.messages),
            }),
    {
        match self.document.check_key(self.own) {
            Err(e) => Err(e),
            Ok(()) => Ok(&self.document.messages),
        }
    }

    /// A message, whether it can be read or not.
    pub fn get_message_reference(&self, message_id: Uuid) -> (r: Result<&Message, Error>)
        ensures
            match r {
                Ok(m) => document::has_message(self.document.messages@, message_id) && *m
                    == self.document.messages@[
                    document::message_index(self.document.messages@, message_id)
                ],
                Err(e) => !document::has_message(self.document.messages@, message_id) && e
                    == Error::MessageNotFound,
            },
    {
        self.document.get_message(message_id)
    }

    /// Puts another document in place of the one that the task has. `genuine` says whether its
    /// signature is good, once the own one was put under it where the own identity is its creator.
    pub fn replace_document(&mut self, document: ConversationDocument, genuine: bool) -> (r: Result<
        (),
        Error,
    >)
        ensures
            if genuine {
                r is Ok && *final(self) == (ConversationTask { document, ..*old(self) })
            } else {
                &&& r == Err::<(), Error>(Error::OtherWithContext(Reason::InvalidSignature))
                &&& *final(self) == *old(self)
            },
            old(self).well_formed() && document.well_formed() ==> final(self).well_formed(),
    {
        if !genuine {
            return Err(Error::OtherWithContext(Reason::InvalidSignature));
        }
        self.document = document;
        Ok(())
    }
}

impl ConversationInner {
    /// Takes a request or a response that comes to a conversation.
    pub fn process_request_response_event(
        &mut self,
        id: Uuid,
        sender: Did,
        event: ConversationRequestResponse,
        fresh_key: Vec<u8>,
    ) -> (r: Result<Exchanged, Error>)
        ensures
            store_exchange_post(*old(self), *final(self), r, id, sender, event, fresh_key),
            old(self).well_formed() ==> final(self).well_formed(),
    {
        match event {
            ConversationRequestResponse::Request {
                conversation_id,
                kind,
            } => match self.answer_request(id, conversation_id, sender, kind, fresh_key) {
                Ok(answer) => Ok(Exchanged::Answer(answer)),
                Err(e) => Err(e),
            },
            ConversationRequestResponse::Response {
                conversation_id,
                kind,
            } => match self.take_response(id, conversation_id, sender, kind) {
                Ok(follow_up) => Ok(Exchanged::FollowUp(follow_up)),
                Err(e) => Err(e),
            },
        }
    }

    /// Takes a sign of activity in a conversation, for which the key of its sender has to be there.
    pub fn process_conversation_event(&self, id: Uuid, sender: Did, event: MessagingEvents) -> (r:
        Result<MessageEventKind, Error>)
        ensures
            match exchange::key_refusal(*self, id, Some(sender)) {
                Some(e) => r == Err::<MessageEventKind, Error>(e),
                None => r == incoming::activity_event(event),
            },
    {
        match self.conversation_key(id, Some(sender)) {
            Err(e) => Err(e),
            Ok(_) => conversation_event(event),
        }
    }

    /// Tells the other members of an activity.
    pub fn send_event(&self, id: Uuid, event: MessageEvent) -> (r: Result<Outgoing, Error>)
        ensures
            r == (match exchange::key_refusal(*self, id, None) {
                Some(e) => Err::<Outgoing, Error>(e),
                None => Ok(Outgoing::Event { member: self.own, event, cancelled: false }),
            }),
    {
        self.activity(id, event, false)
    }

    /// Tells the other members that an activity has ended.
    pub fn cancel_event(&self, id: Uuid, event: MessageEvent) -> (r: Result<Outgoing, Error>)
        ensures
            r == (match exchange::key_refusal(*self, id, None) {
                Some(e) => Err::<Outgoing, Error>(e),
                None => Ok(Outgoing::Event { member: self.own, event, cancelled: true }),
            }),
    {
        self.activity(id, event, true)
    }

    /// The conversations.
    pub fn list(&self) -> (r: &Vec<ConversationDocument>)
        ensures
            *r == self.conversations,
    {
        &self.conversations
    }

    /// The messages of a conversation, as far as they can be read.
    pub fn get_messages(&self, id: Uuid) -> (r: Result<&Vec<Message>, Error>)
        ensures
            r == (if !store::has_conversation(self.conversations@, id) {
                Err::<&Vec<Message>, Error>(Error::InvalidConversation)
            } else {
                match exchange::source_refusal(*self, id) {
                    Some(e) => Err(e),
                    None => Ok(&exchange::document_of(*self, id).messages),
                }
            }),
    {
        match self.pubkey_or_keystore(id) {
            Err(e) => return Err(e),
            Ok(_) => {},
        }
        match self.get(id) {
            Err(e) => Err(e),
            Ok(doc) => Ok(&doc.messages),
        }
    }

    /// A message of a conversation, whether it can be read or not.
    pub fn get_message_reference(&self, id: Uuid, message_id: Uuid) -> (r: Result<&Message, Error>)
        ensures
            if !store::has_conversation(self.conversations@, id) {
                r == Err::<&Message, Error>(Error::InvalidConversation)
            } else {
                let messages = exchange::document_of(*self, id).messages@;
                match r {
                    Ok(m) => document::has_message(messages, message_id) && *m
                        == messages[document::message_index(messages, message_id)],
                    Err(e) => !document::has_message(messages, message_id) && e
                        == Error::MessageNotFound,
                }
            },
    {
        match self.get(id) {
            Err(e) => Err(e),
            Ok(doc) => doc.get_message(message_id),
        }
    }
}

} // verus!
