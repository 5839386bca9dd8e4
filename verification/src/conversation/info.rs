//! What a conversation shows of itself: name, description, images, and where it is filed.
use vstd::prelude::*;
use crate::encoding::{self, guess_media_type};
use crate::error::{Error, LengthOf, Reason};
use crate::file_name::{self, extension_of};
use crate::ids::{Cid, Did};
use crate::text::{self, copy_text, trim};
use super::document::ConversationDocument;
use super::incoming::Keeper;
use super::members;
use super::{
    ConversationImageType, ConversationType, Effects, GroupPermission, Limits, MessageEventKind,
    Outgoing, Publication, RayGunEventKind,
};

verus! {

/// The greatest length of a name, in bytes.
pub const MAX_NAME: usize = 255;

/// Why a new name of a group is refused. The length of the trimmed name is looked at first.
pub open spec fn name_refusal(
    doc: ConversationDocument,
    own: Did,
    name: Seq<char>,
) -> Option<Error> {
    let length = text::byte_length(text::trimmed(name));
    if length > MAX_NAME {
        Some(
            Error::InvalidLength {
                context: LengthOf::Name,
                current: length,
                minimum: None,
                maximum: Some(MAX_NAME),
            },
        )
    } else if doc.conversation_type is Direct || doc.creator is None {
        Some(Error::InvalidConversation)
    } else if !doc.permits(own, GroupPermission::SetGroupName) && !doc.is_creator(own) {
        Some(Error::PublicKeyInvalid)
    } else {
        None
    }
}

/// Why the looks of a group are not changed: only its creator changes them.
pub open spec fn owner_refusal(doc: ConversationDocument, own: Did) -> Option<Error> {
    if doc.conversation_type is Group && !doc.is_creator(own) {
        Some(Error::InvalidConversation)
    } else {
        None
    }
}

/// Why a description is refused by its length.
pub open spec fn description_length_refusal(
    description: Option<String>,
    max: usize,
) -> Option<Error> {
    match description {
        Some(d) => if d@.len() == 0 || text::byte_length(d@) > max {
            Some(
                Error::InvalidLength {
                    context: LengthOf::Description,
                    current: text::byte_length(d@),
                    minimum: Some(1),
                    maximum: Some(max),
                },
            )
        } else {
            None
        },
        None => None,
    }
}

/// Why a new description is refused.
pub open spec fn description_refusal(
    doc: ConversationDocument,
    own: Did,
    description: Option<String>,
    max: usize,
) -> Option<Error> {
    match owner_refusal(doc, own) {
        Some(e) => Some(e),
        None => description_length_refusal(description, max),
    }
}

/// Checks the length of a description.
pub fn check_description(description: &Option<String>, max: usize) -> (r: Result<(), Error>)
    ensures
        match description_length_refusal(*description, max) {
            Some(e) => r == Err::<(), Error>(e),
            None => r is Ok,
        },
{
    match description {
        Some(d) => {
            let length: usize = d.as_str().len();
            if d.as_str().is_empty() || length > max {
                Err(
                    Error::InvalidLength {
                        context: LengthOf::Description,
                        current: length,
                        minimum: Some(1),
                        maximum: Some(max),
                    },
                )
            } else {
                Ok(())
            }
        },
        None => Ok(()),
    }
}

/// An image of a conversation or a community, with its kind.
pub struct ConversationImage {
    pub image_type: ImageKind,
    pub data: Vec<u8>,
}

/// What kind of image is stored, as far as it is known.
pub enum ImageKind {
    /// A media type.
    Mime(String),
    /// An extension of a file name.
    Extension(String),
    Other,
}

/// Where a new image comes from.
#[derive(Clone)]
pub enum ImageSource {
    /// A file of the own storage: its size, and the content that it refers to.
    Constellation { size: usize, file_type: String, reference: Option<Cid> },
    /// A file on disk that was added as `link`.
    Disk { path: String, size: usize, link: Cid },
    /// Bytes that were added as `link`.
    Stream { bytes: Vec<u8>, link: Cid },
}

/// What is stored of an image.
pub struct ImageDag {
    pub link: Cid,
    pub size: usize,
    pub mime: ImageKind,
}

/// The greatest size of an image.
pub open spec fn max_image_size(image_type: ConversationImageType, limits: Limits) -> usize {
    match image_type {
        ConversationImageType::Icon => limits.max_icon_size,
        ConversationImageType::Banner => limits.max_banner_size,
    }
}

/// What a file of the own storage that refers to nothing is refused with.
pub open spec fn missing_reference(keeper: Keeper) -> Error {
    match keeper {
        Keeper::Task => Error::OtherWithContext(Reason::InvalidReference),
        Keeper::Store => Error::Other,
    }
}

/// Why a new image is refused. A file of the own storage may be too great, or refer to nothing. What
/// is read from elsewhere may not be greater than an image.
pub open spec fn image_refusal(
    doc: ConversationDocument,
    own: Did,
    image_type: ConversationImageType,
    source: ImageSource,
    limits: Limits,
    keeper: Keeper,
) -> Option<Error> {
    match owner_refusal(doc, own) {
        Some(e) => Some(e),
        None => match source {
            ImageSource::Constellation { size, reference, .. } => if size > max_image_size(
                image_type,
                limits,
            ) {
                Some(
                    Error::InvalidLength {
                        context: LengthOf::Image,
                        current: size,
                        minimum: Some(1),
                        maximum: Some(max_image_size(image_type, limits)),
                    },
                )
            } else if reference is None {
                Some(missing_reference(keeper))
            } else {
                None
            },
            ImageSource::Disk { size, .. } => if size > max_image_size(image_type, limits) {
                Some(Error::OtherWithContext(Reason::ReadLimit))
            } else {
                None
            },
            ImageSource::Stream { bytes, .. } => if bytes@.len() > max_image_size(
                image_type,
                limits,
            ) {
                Some(Error::OtherWithContext(Reason::ReadLimit))
            } else {
                None
            },
        },
    }
}

/// What is stored of an image that comes from `source`.
pub open spec fn is_dag_of(dag: ImageDag, source: ImageSource) -> bool {
    match source {
        ImageSource::Constellation { size, file_type, reference } => {
            &&& reference == Some(dag.link)
            &&& dag.size == size
            &&& dag.mime == ImageKind::Mime(file_type)
        },
        ImageSource::Disk { path, size, link } => {
            &&& dag.link == link
            &&& dag.size == size
            &&& match file_name::extension(path@) {
                Some(ext) => dag.mime matches ImageKind::Extension(e) && e@ == ext,
                None => dag.mime is Other,
            }
        },
        ImageSource::Stream { bytes, link } => {
            &&& dag.link == link
            &&& dag.size == bytes@.len()
            &&& match encoding::guessed_media_type(bytes@) {
                Some(mime) => dag.mime matches ImageKind::Mime(m) && m@ == mime,
                None => dag.mime is Other,
            }
        },
    }
}

/// What `ConversationDocument::prepare_image` returns.
pub open spec fn prepare_image_post(
    doc: ConversationDocument,
    r: Result<ImageDag, Error>,
    own: Did,
    image_type: ConversationImageType,
    source: ImageSource,
    limits: Limits,
    keeper: Keeper,
) -> bool {
    match image_refusal(doc, own, image_type, source, limits, keeper) {
        Some(e) => r == Err::<ImageDag, Error>(e),
        None => r matches Ok(dag) && is_dag_of(dag, source) && dag.size <= max_image_size(
            image_type,
            limits,
        ),
    }
}

/// The greatest size of an image.
pub fn image_limit(image_type: ConversationImageType, limits: Limits) -> (r: usize)
    ensures
        r == max_image_size(image_type, limits),
{
    match image_type {
        ConversationImageType::Icon => limits.max_icon_size,
        ConversationImageType::Banner => limits.max_banner_size,
    }
}

/// What the subscribers are told of a new or removed image.
pub open spec fn image_event(
    conversation_id: crate::ids::Uuid,
    image_type: ConversationImageType,
) -> MessageEventKind {
    match image_type {
        ConversationImageType::Icon => MessageEventKind::ConversationUpdatedIcon {
            conversation_id,
        },
        ConversationImageType::Banner => MessageEventKind::ConversationUpdatedBanner {
            conversation_id,
        },
    }
}

/// Checks that a stored image is not too great to be read.
pub fn check_stored_image(size: usize, image_type: ConversationImageType, limits: Limits) -> (r:
    Result<(), Error>)
    ensures
        if size > max_image_size(image_type, limits) {
            r == Err::<(), Error>(
                Error::InvalidLength {
                    context: LengthOf::Image,
                    current: size,
                    minimum: None,
                    maximum: Some(max_image_size(image_type, limits)),
                },
            )
        } else {
            r is Ok
        },
{
    let max: usize = image_limit(image_type, limits);
    if size > max {
        Err(
            Error::InvalidLength {
                context: LengthOf::Image,
                current: size,
                minimum: None,
                maximum: Some(max),
            },
        )
    } else {
        Ok(())
    }
}

/// What `ConversationDocument::update_name` does.
pub open spec fn update_name_post(
    before: ConversationDocument,
    after: ConversationDocument,
    r: Result<Effects, Error>,
    own: Did,
    name: Seq<char>,
) -> bool {
    match name_refusal(before, own, name) {
        Some(e) => r == Err::<Effects, Error>(e) && after == before,
        None => {
            let trimmed = text::trimmed(name);
            &&& after == (ConversationDocument {
                name: after.name,
                ..before
            })
            &&& match after.name {
                Some(n) => trimmed.len() > 0 && n@ == trimmed,
                None => trimmed.len() == 0,
            }
            &&& match r {
                Ok(effects) => {
                    &&& effects == (Effects {
                        event: effects.event,
                        ..members::silent_effects(
                            Outgoing::ChangeName { name: after.name },
                        )
                    })
                    &&& effects.event matches Some(
                        MessageEventKind::ConversationNameUpdated { conversation_id, name },
                    ) && conversation_id == before.id && name@ == trimmed
                },
                Err(_) => false,
            }
        },
    }
}

/// What `ConversationDocument::set_description` does.
pub open spec fn set_description_post(
    before: ConversationDocument,
    after: ConversationDocument,
    r: Result<Effects, Error>,
    own: Did,
    description: Option<String>,
    limits: Limits,
) -> bool {
    match description_refusal(before, own, description, limits.max_description) {
        Some(e) => r == Err::<Effects, Error>(e) && after == before,
        None => {
            &&& after == (ConversationDocument { description, ..before })
            &&& r == Ok::<Effects, Error>(
                Effects {
                    event: Some(
                        MessageEventKind::ConversationDescriptionChanged {
                            conversation_id: before.id,
                            description,
                        },
                    ),
                    ..members::silent_effects(Outgoing::ChangeDescription { description })
                },
            )
        },
    }
}

/// What `ConversationDocument::set_image` does.
pub open spec fn set_image_post(
    before: ConversationDocument,
    after: ConversationDocument,
    r: Effects,
    image_type: ConversationImageType,
    cid: Cid,
) -> bool {
    &&& after == before.with_image(image_type, Some(cid))
    &&& r == (Effects {
        event: Some(image_event(before.id, image_type)),
        ..members::silent_effects(
            match image_type {
                ConversationImageType::Icon => Outgoing::AddedIcon,
                ConversationImageType::Banner => Outgoing::AddedBanner,
            },
        )
    })
}

/// What `ConversationDocument::update_conversation_image` does.
pub open spec fn update_conversation_image_post(
    before: ConversationDocument,
    after: ConversationDocument,
    r: Result<Effects, Error>,
    own: Did,
    image_type: ConversationImageType,
    source: ImageSource,
    cid: Cid,
    limits: Limits,
    keeper: Keeper,
) -> bool {
    match image_refusal(before, own, image_type, source, limits, keeper) {
        Some(e) => r == Err::<Effects, Error>(e) && after == before,
        None => r matches Ok(told) && set_image_post(before, after, told, image_type, cid),
    }
}

/// What `ConversationDocument::remove_conversation_image` does.
pub open spec fn remove_conversation_image_post(
    before: ConversationDocument,
    after: ConversationDocument,
    r: Result<Effects, Error>,
    own: Did,
    image_type: ConversationImageType,
) -> bool {
    match owner_refusal(before, own) {
        Some(e) => r == Err::<Effects, Error>(e) && after == before,
        None => if before.image(image_type) is None {
            r == Err::<Effects, Error>(Error::ObjectNotFound) && after == before
        } else {
            &&& after == before.with_image(image_type, None)
            &&& r == Ok::<Effects, Error>(
                Effects {
                    event: Some(image_event(before.id, image_type)),
                    ..members::silent_effects(
                        match image_type {
                            ConversationImageType::Icon => Outgoing::RemovedIcon,
                            ConversationImageType::Banner => Outgoing::RemovedBanner,
                        },
                    )
                },
            )
        },
    }
}

/// What `ConversationDocument::archived_conversation` does.
pub open spec fn archived_conversation_post(
    before: ConversationDocument,
    after: ConversationDocument,
    r: Option<RayGunEventKind>,
) -> bool {
    &&& after == (ConversationDocument { archived: true, ..before })
    &&& r == (if before.archived {
        None
    } else {
        Some(RayGunEventKind::ConversationArchived { conversation_id: before.id })
    })
}

/// What `ConversationDocument::unarchived_conversation` does.
pub open spec fn unarchived_conversation_post(
    before: ConversationDocument,
    after: ConversationDocument,
    r: Option<RayGunEventKind>,
) -> bool {
    &&& after == (ConversationDocument { archived: false, ..before })
    &&& r == (if before.archived {
        Some(RayGunEventKind::ConversationUnarchived { conversation_id: before.id })
    } else {
        None
    })
}

impl ConversationDocument {
    /// The reference to an image.
    pub open spec fn image(self, image_type: ConversationImageType) -> Option<Cid> {
        match image_type {
            ConversationImageType::Icon => self.icon,
            ConversationImageType::Banner => self.banner,
        }
    }

    /// The document with another reference to an image.
    pub open spec fn with_image(
        self,
        image_type: ConversationImageType,
        cid: Option<Cid>,
    ) -> ConversationDocument {
        match image_type {
            ConversationImageType::Icon => ConversationDocument { icon: cid, ..self },
            ConversationImageType::Banner => ConversationDocument { banner: cid, ..self },
        }
    }

    fn check_owner(&self, own: Did) -> (r: Result<(), Error>)
        ensures
            match owner_refusal(*self, own) {
                Some(e) => r == Err::<(), Error>(e),
                None => r is Ok,
            },
    {
        if self.conversation_type == ConversationType::Group {
            match self.creator {
                Some(creator) => if creator == own {
                    Ok(())
                } else {
                    Err(Error::InvalidConversation)
                },
                None => Err(Error::InvalidConversation),
            }
        } else {
            Ok(())
        }
    }

    /// Names a group. An empty name takes the name away.
    pub fn update_name(&mut self, own: Did, name: &str) -> (r: Result<Effects, Error>)
        ensures
            update_name_post(*old(self), *final(self), r, own, name@),
    {
        let name = trim(name);
        let length: usize = name.len();
        if length > MAX_NAME {
            return Err(
                Error::InvalidLength {
                    context: LengthOf::Name,
                    current: length,
                    minimum: None,
                    maximum: Some(MAX_NAME),
                },
            );
        }
        if self.conversation_type == ConversationType::Direct {
            return Err(Error::InvalidConversation);
        }
        let creator: Did = match self.creator {
            Some(creator) => creator,
            None => return Err(Error::InvalidConversation),
        };
        if !self.has_permission(own, GroupPermission::SetGroupName) && creator != own {
            return Err(Error::PublicKeyInvalid);
        }
        self.name = if name.is_empty() {
            None
        } else {
            Some(name.to_owned())
        };
        Ok(
            Effects {
                save: true,
                event: Some(
                    MessageEventKind::ConversationNameUpdated {
                        conversation_id: self.id,
                        name: name.to_owned(),
                    },
                ),
                mailbox: None,
                publish: Some(
                    Publication {
                        message_id: None,
                        event: Outgoing::ChangeName { name: copy_text(&self.name) },
                    },
                ),
                direct: None,
                request_key: None,
                ping: None,
                discover: None,
            },
        )
    }

    /// Describes a conversation.
    pub fn set_description(
        &mut self,
        own: Did,
        description: Option<String>,
        limits: Limits,
    ) -> (r: Result<Effects, Error>)
        ensures
            set_description_post(*old(self), *final(self), r, own, description, limits),
    {
        match self.check_owner(own) {
            Err(e) => return Err(e),
            Ok(()) => {},
        }
        match check_description(&description, limits.max_description) {
            Err(e) => return Err(e),
            Ok(()) => {},
        }
        let told = copy_text(&description);
        let published = copy_text(&description);
        self.description = description;
        Ok(
            Effects {
                save: true,
                event: Some(
                    MessageEventKind::ConversationDescriptionChanged {
                        conversation_id: self.id,
                        description: told,
                    },
                ),
                mailbox: None,
                publish: Some(
                    Publication {
                        message_id: None,
                        event: Outgoing::ChangeDescription { description: published },
                    },
                ),
                direct: None,
                request_key: None,
                ping: None,
                discover: None,
            },
        )
    }

    /// The reference to an image.
    pub fn conversation_image(&self, image_type: ConversationImageType) -> (r: Result<Cid, Error>)
        ensures
            r == (match self.image(image_type) {
                Some(cid) => Ok::<Cid, Error>(cid),
                None => Err(Error::Other),
            }),
    {
        let cid: Option<Cid> = match image_type {
            ConversationImageType::Icon => self.icon,
            ConversationImageType::Banner => self.banner,
        };
        match cid {
            Some(cid) => Ok(cid),
            None => Err(Error::Other),
        }
    }

    /// Checks that a new image is not refused.
    pub fn check_image(
        &self,
        own: Did,
        image_type: ConversationImageType,
        source: &ImageSource,
        limits: Limits,
        keeper: Keeper,
    ) -> (r: Result<(), Error>)
        ensures
            match image_refusal(*self, own, image_type, *source, limits, keeper) {
                Some(e) => r == Err::<(), Error>(e),
                None => r is Ok,
            },
    {
        match self.check_owner(own) {
            Err(e) => return Err(e),
            Ok(()) => {},
        }
        let max: usize = image_limit(image_type, limits);
        match source {
            ImageSource::Constellation { size, reference, .. } => {
                if *size > max {
                    return Err(
                        Error::InvalidLength {
                            context: LengthOf::Image,
                            current: *size,
                            minimum: Some(1),
                            maximum: Some(max),
                        },
                    );
                }
                match (reference, keeper) {
                    (Some(_), _) => Ok(()),
                    (None, Keeper::Task) => Err(Error::OtherWithContext(Reason::InvalidReference)),
                    (None, Keeper::Store) => Err(Error::Other),
                }
            },
            ImageSource::Disk { size, .. } => if *size > max {
                Err(Error::OtherWithContext(Reason::ReadLimit))
            } else {
                Ok(())
            },
            ImageSource::Stream { bytes, .. } => if bytes.len() > max {
                Err(Error::OtherWithContext(Reason::ReadLimit))
            } else {
                Ok(())
            },
        }
    }

    /// What to store of a new image, before the conversation refers to it.
    pub fn prepare_image(
        &self,
        own: Did,
        image_type: ConversationImageType,
        source: &ImageSource,
        limits: Limits,
        keeper: Keeper,
    ) -> (r: Result<ImageDag, Error>)
        ensures
            prepare_image_post(*self, r, own, image_type, *source, limits, keeper),
    {
        match self.check_image(own, image_type, source, limits, keeper) {
            Err(e) => return Err(e),
            Ok(()) => {},
        }
        match source {
            ImageSource::Constellation { size, file_type, reference } => match reference {
                Some(link) => Ok(
                    ImageDag {
                        link: *link,
                        size: *size,
                        mime: ImageKind::Mime(file_type.clone()),
                    },
                ),
                None => Err(Error::Other),
            },
            ImageSource::Disk { path, size, link } => {
                let mime = match extension_of(path.as_str()) {
                    Some(ext) => ImageKind::Extension(ext),
                    None => ImageKind::Other,
                };
                Ok(ImageDag { link: *link, size: *size, mime })
            },
            ImageSource::Stream { bytes, link } => {
                let mime = match guess_media_type(bytes) {
                    Some(mime) => ImageKind::Mime(mime),
                    None => ImageKind::Other,
                };
                Ok(ImageDag { link: *link, size: bytes.len(), mime })
            },
        }
    }

    /// Refers to an image that comes from `source` and was stored as `cid`, unless it is refused.
    pub fn update_conversation_image(
        &mut self,
        own: Did,
        image_type: ConversationImageType,
        source: &ImageSource,
        cid: Cid,
        limits: Limits,
        keeper: Keeper,
    ) -> (r: Result<Effects, Error>)
        ensures
            update_conversation_image_post(
                *old(self),
                *final(self),
                r,
                own,
                image_type,
                *source,
                cid,
                limits,
                keeper,
            ),
    {
        match self.check_image(own, image_type, source, limits, keeper) {
            Err(e) => return Err(e),
            Ok(()) => {},
        }
        Ok(self.set_image(image_type, cid))
    }

    fn set_image(&mut self, image_type: ConversationImageType, cid: Cid) -> (r: Effects)
        ensures
            set_image_post(*old(self), *final(self), r, image_type, cid),
    {
        let event = match image_type {
            ConversationImageType::Icon => {
                self.icon = Some(cid);
                Outgoing::AddedIcon
            },
            ConversationImageType::Banner => {
                self.banner = Some(cid);
                Outgoing::AddedBanner
            },
        };
        self.image_changed(image_type, event)
    }

    fn image_changed(&self, image_type: ConversationImageType, event: Outgoing) -> (r: Effects)
        ensures
            r == (Effects {
                event: Some(image_event(self.id, image_type)),
                ..members::silent_effects(event)
            }),
    {
        Effects {
            save: true,
            event: Some(
                match image_type {
                    ConversationImageType::Icon => MessageEventKind::ConversationUpdatedIcon {
                        conversation_id: self.id,
                    },
                    ConversationImageType::Banner => MessageEventKind::ConversationUpdatedBanner {
                        conversation_id: self.id,
                    },
                },
            ),
            mailbox: None,
            publish: Some(Publication { message_id: None, event }),
            direct: None,
            request_key: None,
            ping: None,
            discover: None,
        }
    }

    /// Takes an image away.
    pub fn remove_conversation_image(
        &mut self,
        own: Did,
        image_type: ConversationImageType,
    ) -> (r: Result<Effects, Error>)
        ensures
            remove_conversation_image_post(*old(self), *final(self), r, own, image_type),
    {
        match self.check_owner(own) {
            Err(e) => return Err(e),
            Ok(()) => {},
        }
        let (held, event) = match image_type {
            ConversationImageType::Icon => (self.icon.take(), Outgoing::RemovedIcon),
            ConversationImageType::Banner => (self.banner.take(), Outgoing::RemovedBanner),
        };
        if held.is_none() {
            return Err(Error::ObjectNotFound);
        }
        Ok(self.image_changed(image_type, event))
    }

    /// Files the conversation away. Returns what the subscribers of the store are told, where it
    /// was not filed away before.
    pub fn archived_conversation(&mut self) -> (r: Option<RayGunEventKind>)
        ensures
            archived_conversation_post(*old(self), *final(self), r),
    {
        let previous: bool = self.archived;
        self.archived = true;
        if previous {
            None
        } else {
            Some(RayGunEventKind::ConversationArchived { conversation_id: self.id })
        }
    }

    /// Takes the conversation back from the archive.
    pub fn unarchived_conversation(&mut self) -> (r: Option<RayGunEventKind>)
        ensures
            unarchived_conversation_post(*old(self), *final(self), r),
    {
        let previous: bool = self.archived;
        self.archived = false;
        if previous {
            Some(RayGunEventKind::ConversationUnarchived { conversation_id: self.id })
        } else {
            None
        }
    }

    /// Marks the conversation as a favorite or no longer.
    pub fn set_favorite_conversation(&mut self, favorite: bool)
        ensures
            *final(self) == (ConversationDocument { favorite, ..*old(self) }),
    {
        self.favorite = favorite;
    }
}

} // verus!
