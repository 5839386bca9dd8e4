//! The files and images of the conversations of the store.
use vstd::prelude::*;
use crate::error::Error;
use crate::ids::{Cid, Uuid};
use super::attach::{
    self, check_lengths, count_attachable, keep_attachable, plan_attachments, Attaching, Location,
};
use super::exchange;
use super::incoming::Keeper;
use super::info::{self, ImageDag, ImageSource};
use super::message::Attachment;
use super::store::{self, ConversationInner};
use super::ConversationImageType;

verus! {

/// Why files are not attached in a conversation of the store.
pub open spec fn attach_refusal(
    inner: ConversationInner,
    id: Uuid,
    locations: Seq<Location>,
    lines: Seq<String>,
) -> Option<Error> {
    match attach::lengths_refusal(locations, lines, inner.limits) {
        Some(e) => Some(e),
        None => if !store::has_conversation(inner.conversations@, id) {
            Some(Error::InvalidConversation)
        } else if attach::attachable(locations).len() == 0 {
            Some(Error::NoAttachments)
        } else {
            exchange::source_refusal(inner, id)
        },
    }
}

impl ConversationInner {
    /// Attaches files to a new message: what is done with each, when the directory of the
    /// conversation holds `items`.
    pub fn attach(
        &self,
        id: Uuid,
        message_id: Uuid,
        replied: Option<Uuid>,
        locations: Vec<Location>,
        lines: Vec<String>,
        items: &Vec<String>,
    ) -> (r: Result<Attaching, Error>)
        ensures
            match attach_refusal(*self, id, locations@, lines@) {
                Some(e) => r == Err::<Attaching, Error>(e),
                None => r matches Ok(attaching) && attach::is_attaching(
                    attaching,
                    message_id,
                    id,
                    self.own,
                    replied,
                    locations@,
                    lines,
                    items@,
                ),
            },
    {
        match check_lengths(&locations, &lines, self.limits) {
            Err(e) => return Err(e),
            Ok(()) => {},
        }
        match self.get(id) {
            Err(e) => return Err(e),
            Ok(_) => {},
        }
        if count_attachable(&locations) == 0 {
            return Err(Error::NoAttachments);
        }
        match self.pubkey_or_keystore(id) {
            Err(e) => return Err(e),
            Ok(_) => {},
        }
        let files = keep_attachable(locations);
        let steps = plan_attachments(id, &files, items);
        Ok(
            Attaching {
                id: message_id,
                conversation_id: id,
                own: self.own,
                replied,
                lines,
                steps,
            },
        )
    }

    /// A file of a message, to be downloaded.
    pub fn find_attachment(&self, id: Uuid, message_id: Uuid, file: &str) -> (r: Result<
        &Attachment,
        Error,
    >)
        ensures
            if !store::has_conversation(self.conversations@, id) {
                r == Err::<&Attachment, Error>(Error::InvalidConversation)
            } else {
                attach::find_post(exchange::document_of(*self, id), r, message_id, file@)
            },
    {
        match self.get(id) {
            Err(e) => Err(e),
            Ok(doc) => doc.find_attachment(message_id, file),
        }
    }

    /// The reference to an image of a conversation.
    pub fn conversation_image(&self, id: Uuid, image_type: ConversationImageType) -> (r: Result<
        Cid,
        Error,
    >)
        ensures
            r == (if !store::has_conversation(self.conversations@, id) {
                Err::<Cid, Error>(Error::InvalidConversation)
            } else {
                match exchange::document_of(*self, id).image(image_type) {
                    Some(cid) => Ok(cid),
                    None => Err(Error::Other),
                }
            }),
    {
        match self.get(id) {
            Err(e) => Err(e),
            Ok(doc) => doc.conversation_image(image_type),
        }
    }

    /// What to store of a new image, before the conversation refers to it. A file of the own
    /// storage that refers to nothing is refused with `Error::Other`.
    pub fn prepare_image(
        &self,
        id: Uuid,
        image_type: ConversationImageType,
        source: &ImageSource,
    ) -> (r: Result<ImageDag, Error>)
        ensures
            if !store::has_conversation(self.conversations@, id) {
                r == Err::<ImageDag, Error>(Error::InvalidConversation)
            } else {
                info::prepare_image_post(
                    exchange::document_of(*self, id),
                    r,
                    self.own,
                    image_type,
                    *source,
                    self.limits,
                    Keeper::Store,
                )
            },
    {
        match self.get(id) {
            Err(e) => Err(e),
            Ok(doc) => doc.prepare_image(
                self.own,
                image_type,
                source,
                self.limits,
                Keeper::Store,
            ),
        }
    }
}

} // verus!
