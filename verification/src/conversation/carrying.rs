//! What holds of messages with files, of what other identities tell of conversations, and of what is
//! known of a delivery.
use vstd::prelude::*;
use crate::encoding;
use crate::error::{Error, LengthOf, Reason};
use crate::file_name;
use crate::ids::{self, Did, Timestamp, Uuid};
use crate::ordered;
use crate::text;
use super::attach::{
    self, Attaching, AttachStep, AttachmentKind, Location, Progression, Upload, UploadEvent,
};
use super::comings::{conversation_is_found_at_its_place, deleted_conversation_goes};
use super::document::{self, ConversationDocument};
use super::exchange;
use super::keys;
use super::lifecycle;
use super::message::{Attachment, Message};
use super::notices::{self, Circumstances, ConversationEvents, Notice, Outcome};
use super::outbox;
use super::queue;
use super::received::lemma_place;
use super::store::{self, ConversationInner};
use super::{Limits, MessageStatus, MessageType, RayGunEventKind};

verus! {

/// Files can be attached unless they are paths on disk that are none of a file. Those that can keep
/// their order.
pub proof fn attachable_goes_by_parts(a: Seq<Location>, b: Seq<Location>, location: Location)
    ensures
        attach::attachable(a + b) == attach::attachable(a) + attach::attachable(b),
        attach::attachable(seq![location]) == (match location {
            Location::Disk { is_file, .. } => if is_file {
                seq![location]
            } else {
                Seq::empty()
            },
            _ => seq![location],
        }),
    decreases b.len(),
{
    reveal(Seq::filter);
    let none = Seq::<Location>::empty();
    let one = seq![location];
    assert(one.drop_last() == none);
    assert(one.last() == location);
    assert(attach::attachable(none) == none);
    assert(attach::attachable(one) == (if attach::is_attachable(location) {
        none.push(location)
    } else {
        none
    }));
    if b.len() == 0 {
        assert(a + b == a);
        assert(b == none);
        assert(attach::attachable(a) + attach::attachable(b) == attach::attachable(a));
    } else {
        attachable_goes_by_parts(a, b.drop_last(), location);
        assert((a + b).drop_last() == a + b.drop_last());
        assert((a + b).last() == b.last());
        assert(attach::attachable(a + b) == attach::attachable(a) + attach::attachable(b));
    }
}

/// Up to 32 files, of which one at least can be attached, and lines that are not too long make a message
/// where there is someone to write to.
pub proof fn files_are_attached(
    doc: ConversationDocument,
    r: Result<Attaching, Error>,
    own: Did,
    id: Uuid,
    replied: Option<Uuid>,
    locations: Seq<Location>,
    lines: Vec<String>,
    items: Seq<String>,
    limits: Limits,
)
    requires
        attach::attach_post(doc, r, own, id, replied, locations, lines, items, limits),
    ensures
        r is Ok <==> {
            &&& locations.len() <= 32
            &&& lines@.len() == 0 || text::measured_length(lines@) <= limits.max_message_size
            &&& attach::attachable(locations).len() > 0
            &&& doc.key_refusal(own) is None
        },
        locations.len() > 32 ==> (r matches Err(Error::InvalidLength {
            context: LengthOf::Files,
            ..
        })),
        r matches Ok(attaching) ==> {
            &&& attaching.id == id
            &&& attaching.conversation_id == doc.id
            &&& attaching.own == own
            &&& attaching.replied == replied
            &&& attaching.lines == lines
            &&& attaching.steps@.len() == attach::attachable(locations).len()
        },
{
}

/// A file of the own storage stays where it is. One that comes from elsewhere is put into the directory
/// of the conversation, under the name that it brings where that is free.
pub proof fn file_goes_to_its_directory(
    steps: Seq<AttachStep>,
    conversation_id: Uuid,
    files: Seq<Location>,
    items: Seq<Seq<char>>,
    i: int,
)
    requires
        attach::is_plan(steps, conversation_id, files, items),
        0 <= i < files.len(),
    ensures
        steps.len() == files.len(),
        files[i] matches Location::Constellation { path } ==> steps[i] == (AttachStep::Existing {
            path,
        }),
        files[i] matches Location::Disk { path, .. } ==> (file_name::last_component(path@) is None
            ==> steps[i] is Skipped),
        steps[i] matches AttachStep::Upload { name, path } ==> path@ == seq![
            '/', 'c', 'h', 'a', 't', '_', 'm', 'e', 'd', 'i', 'a', '/',
        ] + encoding::uuid_text(conversation_id) + seq!['/'] + name@,
        files[i] matches Location::Stream { name: wanted } ==> {
            &&& steps[i] is Upload || steps[i] is Failed
            &&& !items.contains(wanted@) && !attach::taken(steps.take(i)).contains(wanted@) ==> (
            steps[i] matches AttachStep::Upload { name, .. } && name@ == wanted@)
        },
        files[i] matches Location::Disk { path, .. } ==> (file_name::last_component(
            path@,
        ) matches Some(wanted) ==> {
            &&& steps[i] is Upload || steps[i] is Failed
            &&& !items.contains(wanted) && !attach::taken(steps.take(i)).contains(wanted) ==> (
            steps[i] matches AttachStep::Upload { name, .. } && name@ == wanted)
        }),
{
    assert(attach::is_step(
        steps[i],
        conversation_id,
        files[i],
        attach::taken(steps.take(i)),
        items,
    ));
    if steps[i] is Upload {
        let name = steps[i]->Upload_name;
        let path = steps[i]->Upload_path;
        assert(path@ == attach::file_path_text(conversation_id, name@));
        assert(seq!['/'] + attach::chat_directory_text() + seq!['/'] == seq![
            '/', 'c', 'h', 'a', 't', '_', 'm', 'e', 'd', 'i', 'a', '/',
        ]);
    }
    let waiting = attach::taken(steps.take(i));
    match files[i] {
        Location::Stream { name } => {
            assert(file_name::attempt(name@, 0) == name@);
        },
        Location::Disk { path, .. } => {
            if file_name::last_component(path@) is Some {
                let wanted = file_name::last_component(path@)->Some_0;
                assert(file_name::attempt(wanted, 0) == wanted);
            }
        },
        _ => {},
    }
}

/// The files of a message are those whose upload was completed and that were found, in the order in
/// which they were.
pub proof fn stored_files_go_by_parts(a: Seq<Upload>, b: Seq<Upload>, upload: Upload)
    ensures
        attach::stored_files(a + b) == attach::stored_files(a) + attach::stored_files(b),
        attach::stored_files(seq![upload]) == (match upload.event {
            UploadEvent::Complete { file: Some(file) } => seq![file],
            _ => Seq::empty(),
        }),
    decreases b.len(),
{
    let none = Seq::<Upload>::empty();
    let one = seq![upload];
    assert(one.drop_last() == none);
    assert(one.last() == upload);
    assert(attach::stored_files(none) == Seq::<Attachment>::empty());
    assert(attach::stored_files(one) == (match upload.event {
        UploadEvent::Complete { file: Some(file) } => Seq::<Attachment>::empty().push(file),
        _ => Seq::<Attachment>::empty(),
    }));
    if b.len() == 0 {
        assert(a + b == a);
        assert(attach::stored_files(a) + attach::stored_files(b) == attach::stored_files(a));
    } else {
        stored_files_go_by_parts(a, b.drop_last(), upload);
        assert((a + b).drop_last() == a + b.drop_last());
        assert((a + b).last() == b.last());
        assert(attach::stored_files(a + b) == attach::stored_files(a) + attach::stored_files(b));
    }
}

/// The message with files comes to be where any file was stored, and carries those files and what was
/// asked for.
pub proof fn message_carries_its_files(
    attaching: Attaching,
    r: Result<Message, Error>,
    date: Timestamp,
    uploads: Seq<Upload>,
)
    requires
        attach::finish_post(attaching, r, date, uploads),
    ensures
        r is Ok <==> attach::stored_files(uploads).len() > 0,
        r is Err ==> r == Err::<Message, Error>(Error::NoAttachments),
        r matches Ok(m) ==> {
            &&& m.attachments@ == attach::stored_files(uploads)
            &&& m.message_type == MessageType::Attachment
            &&& m.id == attaching.id
            &&& m.conversation_id == attaching.conversation_id
            &&& m.sender == attaching.own
            &&& m.date == date
            &&& m.lines == attaching.lines
            &&& m.replied == attaching.replied
            &&& m.modified is None
            &&& !m.pinned
            &&& ordered::reaction_entries(m.reactions).len() == 0
        },
{
}

/// Whoever attaches files is told of each step as it is, and of the outcome: that of storing the message,
/// or that there was nothing to attach.
pub proof fn progress_is_told_as_it_is(uploads: Seq<Upload>, stored: Result<(), Error>, i: int)
    ensures
        0 <= i < uploads.len() ==> attach::yielded(uploads, stored)[i] == (
        AttachmentKind::AttachedProgress {
            location: uploads[i].location,
            progress: match uploads[i].event {
                UploadEvent::Progress => Progression::CurrentProgress,
                UploadEvent::Complete { .. } => Progression::ProgressComplete,
                UploadEvent::Failed => Progression::ProgressFailed,
            },
        }),
        attach::stored_files(uploads).len() > 0 ==> attach::yielded(uploads, stored).last()
            == AttachmentKind::Pending(stored),
{
}

/// A file of a message with files is found by its name, the first of that name where there are two.
pub proof fn file_is_found_by_its_name(
    doc: ConversationDocument,
    r: Result<&Attachment, Error>,
    message_id: Uuid,
    file: Seq<char>,
    i: int,
    k: int,
)
    requires
        attach::find_post(doc, r, message_id, file),
        document::distinct_messages(doc.messages@),
        0 <= i < doc.messages@.len(),
        doc.messages@[i].id == message_id,
    ensures
        doc.messages@[i].message_type != MessageType::Attachment ==> r == Err::<&Attachment, Error>(
            Error::InvalidMessage,
        ),
        doc.messages@[i].message_type == MessageType::Attachment && 0 <= k
            < doc.messages@[i].attachments@.len() && doc.messages@[i].attachments@[k].name@ == file
            && (forall|j: int|
            0 <= j < k ==> (#[trigger] doc.messages@[i].attachments@[j]).name@ != file) ==> (
        r matches Ok(a) && *a == doc.messages@[i].attachments@[k]),
        doc.messages@[i].message_type == MessageType::Attachment && (forall|j: int|
            0 <= j < doc.messages@[i].attachments@.len() ==> (
            #[trigger] doc.messages@[i].attachments@[j]).name@ != file) ==> r == Err::<
            &Attachment,
            Error,
        >(Error::FileNotFound),
{
    lemma_place(doc.messages@, i, message_id);
    let files = doc.messages@[i].attachments@;
    if r is Ok && doc.messages@[i].message_type == MessageType::Attachment {
        let at = choose|at: int| #[trigger]
            attach::is_attachment_at(files, file, at) && *r->Ok_0 == files[at];
        assert(files[at].name@ == file);
        if 0 <= k < files.len() && files[k].name@ == file && forall|j: int|
            0 <= j < k ==> (#[trigger] files[j]).name@ != file {
            assert(at == k) by {
                if at < k {
                    assert(files[at].name@ != file);
                }
                if k < at {
                    assert(files[k].name@ != file);
                }
            }
        }
    }
}

/// What an identity tells of changes nothing where nobody is blocked or wronged.
pub open spec fn is_ignored(before: ConversationInner, after: ConversationInner, r: Notice) -> bool {
    &&& after == before
    &&& r.outcome matches Ok(Outcome::Ignored)
}

/// A direct conversation that another begins is opened, unless it is there already or the other is
/// blocked. The two are in it.
pub proof fn announced_conversation_is_opened(
    before: ConversationInner,
    after: ConversationInner,
    r: Notice,
    recipient: Did,
    about: Circumstances,
)
    requires
        notices::process_conversation_post(
            before,
            after,
            r,
            ConversationEvents::NewConversation { recipient },
            about,
        ),
    ensures
        ({
            let known = exists|i: int|
                0 <= i < before.conversations@.len() && (#[trigger] before.conversations@[i]).id
                    == about.shared_id;
            &&& known ==> is_ignored(before, after, r)
            &&& !known && about.blocked ==> after == before && r.outcome == Err::<Outcome, Error>(
                Error::PublicKeyIsBlocked,
            )
            &&& !known && !about.blocked ==> {
                let doc = after.conversations@.last();
                &&& r.outcome matches Ok(Outcome::Opened { event, request_keys })
                &&& event == RayGunEventKind::ConversationCreated {
                    conversation_id: about.shared_id,
                }
                &&& request_keys@.len() == 0
                &&& after.conversations@.len() == before.conversations@.len() + 1
                &&& after.conversations@.drop_last() == before.conversations@
                &&& doc.id == about.shared_id
                &&& doc.conversation_type is Direct
                &&& doc.recipients@ == seq![before.own, recipient]
                &&& doc.messages@.len() == 0
                &&& after.keystores == before.keystores
            }
        }),
{
    if !store::has_conversation(before.conversations@, about.shared_id) && !about.blocked {
        let doc = choose|doc: ConversationDocument|
            lifecycle::is_new_direct(doc, about.shared_id, before.own, recipient)
                && after.conversations@ == #[trigger] lifecycle::with_conversation(
                before.conversations@,
                doc,
            );
        assert(after.conversations@ == before.conversations@.push(doc));
        assert(after.conversations@.drop_last() == before.conversations@);
    }
}

/// A group that another announces is joined where the own identity is in it, it is not there yet, and its
/// signature is good. It begins without messages, with an own key, and the other members present are
/// asked for theirs.
pub proof fn announced_group_is_joined(
    before: ConversationInner,
    after: ConversationInner,
    r: Notice,
    conversation: ConversationDocument,
    about: Circumstances,
    did: Did,
)
    requires
        notices::process_conversation_post(
            before,
            after,
            r,
            ConversationEvents::NewGroupConversation { conversation },
            about,
        ),
    ensures
        ({
            let known = exists|i: int|
                0 <= i < before.conversations@.len() && (#[trigger] before.conversations@[i]).id
                    == conversation.id;
            let concerned = conversation.recipients@.contains(before.own);
            &&& known || !concerned ==> is_ignored(before, after, r) && r.discover@.len() == 0
            &&& !known && concerned ==> r.discover@ == conversation.recipients@
            &&& !known && concerned && !about.genuine ==> after == before && r.outcome == Err::<
                Outcome,
                Error,
            >(Error::OtherWithContext(Reason::InvalidSignature))
            &&& !known && concerned && about.genuine ==> {
                let doc = after.conversations@.last();
                &&& r.outcome matches Ok(Outcome::Opened { event, request_keys })
                &&& event == RayGunEventKind::ConversationCreated {
                    conversation_id: conversation.id,
                }
                &&& request_keys@.contains(did) <==> conversation.spec_recipients().contains(did)
                    && did != before.own
                &&& after.conversations@.len() == before.conversations@.len() + 1
                &&& after.conversations@.drop_last() == before.conversations@
                &&& doc == (ConversationDocument {
                    messages: doc.messages,
                    archived: false,
                    favorite: false,
                    ..conversation
                })
                &&& doc.messages@.len() == 0
                &&& after.open@.contains(conversation.id)
                &&& lifecycle::keystore_of(after.keystores@, conversation.id) is Some
                &&& keys::latest_key(
                    lifecycle::keystore_of(after.keystores@, conversation.id)->Some_0.keys@,
                    before.own,
                ) == Some(about.fresh_key@)
            }
        }),
{
    ids::without_members(conversation.spec_recipients(), before.own, did);
    if !store::has_conversation(before.conversations@, conversation.id)
        && conversation.recipients@.contains(before.own) && about.genuine {
        let doc = choose|doc: ConversationDocument|
            {
                &&& doc == (ConversationDocument {
                    messages: doc.messages,
                    archived: false,
                    favorite: false,
                    ..conversation
                })
                &&& doc.messages@.len() == 0
                &&& #[trigger] lifecycle::is_put_in(before, after, doc, about.fresh_key)
            };
        assert(after.conversations@ == before.conversations@.push(doc));
        assert(after.conversations@.drop_last() == before.conversations@);
        let stored = lifecycle::keystore_of(after.keystores@, conversation.id)->Some_0.keys@;
        assert(stored.last() == keys::KeyEntry { did: before.own, key: about.fresh_key });
        if !before.open@.contains(conversation.id) {
            assert(after.open@[before.open@.len() as int] == conversation.id);
        }
    }
}

/// A deletion that another tells of is followed where the other may delete the conversation: anyone who
/// is present in a direct one, and the creator of a group. It is refused else, and changes nothing.
pub proof fn announced_deletion_is_followed(
    before: ConversationInner,
    after: ConversationInner,
    r: Notice,
    id: Uuid,
    about: Circumstances,
    i: int,
)
    requires
        notices::process_conversation_post(
            before,
            after,
            r,
            ConversationEvents::DeleteConversation { conversation_id: id },
            about,
        ),
        store::distinct_conversations(before.conversations@),
        0 <= i < before.conversations@.len(),
        before.conversations@[i].id == id,
        !before.conversations@[i].deleted,
    ensures
        ({
            let doc = before.conversations@[i];
            let may = match doc.conversation_type {
                super::ConversationType::Direct => doc.spec_recipients().contains(about.sender),
                super::ConversationType::Group => doc.creator == Some(about.sender),
            };
            &&& r.outcome is Ok <==> may
            &&& !may ==> after == before && r.outcome == Err::<Outcome, Error>(
                Error::OtherWithContext(Reason::DeleteNotAllowed),
            )
            &&& may ==> after.conversations@ == before.conversations@.take(i)
                + before.conversations@.skip(i + 1)
            &&& may ==> (r.outcome matches Ok(Outcome::Deleted(deleted)) && deleted.document.id
                == id && deleted.document.deleted)
        }),
{
    conversation_is_found_at_its_place(before.conversations@, id, i);
    if r.outcome is Ok {
        let other: Uuid = if id == 0 {
            1
        } else {
            0
        };
        deleted_conversation_goes(
            before,
            after,
            Ok(r.outcome->Ok_0->Deleted_0),
            id,
            false,
            i,
            other,
        );
    } else if notices::deletion_refusal(before, id, about.sender) is None {
        let other: Uuid = if id == 0 {
            1
        } else {
            0
        };
        deleted_conversation_goes(before, after, Err(r.outcome->Err_0), id, false, i, other);
    }
}

/// Nothing is deleted that is not there.
pub proof fn announced_deletion_of_nothing_is_refused(
    before: ConversationInner,
    after: ConversationInner,
    r: Notice,
    id: Uuid,
    about: Circumstances,
)
    requires
        notices::process_conversation_post(
            before,
            after,
            r,
            ConversationEvents::DeleteConversation { conversation_id: id },
            about,
        ),
        forall|i: int|
            0 <= i < before.conversations@.len() ==> (#[trigger] before.conversations@[i]).id != id,
    ensures
        after == before,
        r.outcome is Err,
{
}

/// A message of a direct conversation is sent once it waits for no other member any more. Nothing is
/// known of one in a group.
pub proof fn message_is_sent_once_it_waits_for_nobody(
    inner: ConversationInner,
    id: Uuid,
    message_id: Uuid,
    i: int,
    m: int,
)
    requires
        store::distinct_conversations(inner.conversations@),
        0 <= i < inner.conversations@.len(),
        inner.conversations@[i].id == id,
        0 <= m < inner.conversations@[i].messages@.len(),
        inner.conversations@[i].messages@[m].id == message_id,
    ensures
        ({
            let doc = inner.conversations@[i];
            let status = outbox::message_status_of(inner, id, message_id);
            let waits = exists|d: Did, k: int|
                {
                    &&& doc.spec_recipients().contains(d)
                    &&& d != inner.own
                    &&& 0 <= k < queue::waiting_for(inner.queue@, d).len()
                    &&& (#[trigger] queue::waiting_for(inner.queue@, d)[k]).id == id
                    &&& queue::waiting_for(inner.queue@, d)[k].m_id == Some(message_id)
                };
            &&& doc.conversation_type is Group ==> status == Err::<MessageStatus, Error>(
                Error::Unimplemented,
            )
            &&& doc.conversation_type is Direct ==> status == Ok::<MessageStatus, Error>(
                if waits {
                    MessageStatus::NotSent
                } else {
                    MessageStatus::Sent
                },
            )
        }),
{
    conversation_is_found_at_its_place(inner.conversations@, id, i);
    let doc = inner.conversations@[i];
    let others = ids::without(doc.spec_recipients(), inner.own);
    assert(document::has_message(doc.messages@, message_id));
    if exchange::waits_for_any(inner.queue@, others, id, message_id) {
        let j = choose|j: int|
            0 <= j < others.len() && exchange::waits_for(
                queue::waiting_for(inner.queue@, #[trigger] others[j]),
                id,
                message_id,
            );
        let d = others[j];
        ids::without_members(doc.spec_recipients(), inner.own, d);
        assert(others.contains(d));
        let items = queue::waiting_for(inner.queue@, d);
        let k = choose|k: int|
            0 <= k < items.len() && (#[trigger] items[k]).id == id && items[k].m_id == Some(
                message_id,
            );
        assert(queue::waiting_for(inner.queue@, d)[k].id == id);
    }
    if exists|d: Did, k: int|
        {
            &&& doc.spec_recipients().contains(d)
            &&& d != inner.own
            &&& 0 <= k < queue::waiting_for(inner.queue@, d).len()
            &&& (#[trigger] queue::waiting_for(inner.queue@, d)[k]).id == id
            &&& queue::waiting_for(inner.queue@, d)[k].m_id == Some(message_id)
        } {
        let (d, k) = choose|d: Did, k: int|
            {
                &&& doc.spec_recipients().contains(d)
                &&& d != inner.own
                &&& 0 <= k < queue::waiting_for(inner.queue@, d).len()
                &&& (#[trigger] queue::waiting_for(inner.queue@, d)[k]).id == id
                &&& queue::waiting_for(inner.queue@, d)[k].m_id == Some(message_id)
            };
        ids::without_members(doc.spec_recipients(), inner.own, d);
        let j = choose|j: int| 0 <= j < others.len() && others[j] == d;
        assert(exchange::waits_for(
            queue::waiting_for(inner.queue@, others[j]),
            id,
            message_id,
        ));
    }
}

} // verus!
