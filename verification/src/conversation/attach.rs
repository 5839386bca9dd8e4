//! Messages with files.
use vstd::prelude::*;
use vstd::string::*;
use crate::encoding::{self, write_uuid};
use crate::error::{Error, LengthOf};
use crate::file_name::{self, choose_name, file_name_of, NameChoice};
use crate::ids::{Did, Timestamp, Uuid};
use crate::ordered::{self, reactions_new};
use crate::text::{self, same_text};
use super::document::{self, ConversationDocument};
use super::message::{Attachment, Message};
use super::{Limits, MessageType};

verus! {

/// The greatest number of files of a message.
pub const MAX_FILES: usize = 32;

/// The directory of the own storage that holds the files of conversations.
pub open spec fn chat_directory_text() -> Seq<char> {
    seq!['c', 'h', 'a', 't', '_', 'm', 'e', 'd', 'i', 'a']
}

/// Where a file comes from.
pub enum Location {
    /// The own storage.
    Constellation { path: String },
    /// A stream of bytes with a name.
    Stream { name: String },
    /// The disk. `is_file` says whether the path is one of a file.
    Disk { path: String, is_file: bool },
}

/// What is done with a file.
pub enum AttachStep {
    /// It is in the own storage already.
    Existing { path: String },
    /// It is put into the own storage, under a name that is free there.
    Upload { name: String, path: String },
    /// No name is free. Holds the last one that was tried.
    Failed { name: String },
    /// It has no name.
    Skipped,
}

/// Whether a file can be attached at all.
pub open spec fn is_attachable(location: Location) -> bool {
    match location {
        Location::Disk { is_file, .. } => is_file,
        _ => true,
    }
}

/// The files that can be attached.
pub open spec fn attachable(locations: Seq<Location>) -> Seq<Location> {
    locations.filter(|l: Location| is_attachable(l))
}

/// Why files and lines do not fit one message.
pub open spec fn lengths_refusal(
    locations: Seq<Location>,
    lines: Seq<String>,
    limits: Limits,
) -> Option<Error> {
    if locations.len() > MAX_FILES {
        Some(
            Error::InvalidLength {
                context: LengthOf::Files,
                current: locations.len() as usize,
                minimum: Some(1),
                maximum: Some(MAX_FILES),
            },
        )
    } else if lines.len() > 0 && text::measured_length(lines) > limits.max_message_size {
        Some(
            Error::InvalidLength {
                context: LengthOf::Message,
                current: text::measured_length(lines),
                minimum: None,
                maximum: Some(limits.max_message_size),
            },
        )
    } else {
        None
    }
}

/// Why files are not attached.
pub open spec fn attach_refusal(
    doc: ConversationDocument,
    own: Did,
    locations: Seq<Location>,
    lines: Seq<String>,
    limits: Limits,
) -> Option<Error> {
    match lengths_refusal(locations, lines, limits) {
        Some(e) => Some(e),
        None => if attachable(locations).len() == 0 {
            Some(Error::NoAttachments)
        } else {
            doc.key_refusal(own)
        },
    }
}

/// The directory of a conversation in the own storage.
pub open spec fn directory_text(conversation_id: Uuid) -> Seq<char> {
    seq!['/'] + chat_directory_text() + seq!['/'] + encoding::uuid_text(conversation_id)
}

/// The path of a file of a conversation in the own storage.
pub open spec fn file_path_text(conversation_id: Uuid, name: Seq<char>) -> Seq<char> {
    directory_text(conversation_id) + seq!['/'] + name
}

/// The names that are taken by the steps of a plan, in order.
pub open spec fn taken(steps: Seq<AttachStep>) -> Seq<Seq<char>>
    decreases steps.len(),
{
    if steps.len() == 0 {
        Seq::empty()
    } else {
        match steps.last() {
            AttachStep::Upload { name, .. } => taken(steps.drop_last()).push(name@),
            _ => taken(steps.drop_last()),
        }
    }
}

/// What is done with a file that wants a name.
pub open spec fn is_upload(
    step: AttachStep,
    conversation_id: Uuid,
    wanted: Seq<char>,
    waiting: Seq<Seq<char>>,
    items: Seq<Seq<char>>,
) -> bool {
    match file_name::free_from(wanted, waiting, items, 0) {
        Some(free) => step matches AttachStep::Upload { name, path } && name@ == free && path@
            == file_path_text(conversation_id, free),
        None => step matches AttachStep::Failed { name } && name@ == file_name::attempt(
            wanted,
            file_name::NAME_ATTEMPTS as nat,
        ),
    }
}

/// What is done with a file, when the names in `waiting` are taken by files before it and the
/// directory holds `items`.
pub open spec fn is_step(
    step: AttachStep,
    conversation_id: Uuid,
    location: Location,
    waiting: Seq<Seq<char>>,
    items: Seq<Seq<char>>,
) -> bool {
    match location {
        Location::Constellation { path } => step matches AttachStep::Existing { path: p } && p
            == path,
        Location::Stream { name } => is_upload(step, conversation_id, name@, waiting, items),
        Location::Disk { path, .. } => match file_name::last_component(path@) {
            Some(name) => is_upload(step, conversation_id, name, waiting, items),
            None => step is Skipped,
        },
    }
}

/// Whether steps are what is done with files, one after the other.
pub open spec fn is_plan(
    steps: Seq<AttachStep>,
    conversation_id: Uuid,
    files: Seq<Location>,
    items: Seq<Seq<char>>,
) -> bool {
    &&& steps.len() == files.len()
    &&& forall|i: int|
        0 <= i < files.len() ==> is_step(
            #[trigger] steps[i],
            conversation_id,
            files[i],
            taken(steps.take(i)),
            items,
        )
}

proof fn lemma_taken_prefix(steps: Seq<AttachStep>, i: int, j: int)
    requires
        0 <= i < j <= steps.len(),
        steps[i] is Upload,
    ensures
        taken(steps.take(j)).contains(steps[i]->Upload_name@),
    decreases j,
{
    let head = steps.take(j);
    assert(head.drop_last() == steps.take(j - 1));
    assert(head.last() == steps[j - 1]);
    let rest = taken(steps.take(j - 1));
    if i == j - 1 {
        assert(taken(head) == rest.push(steps[i]->Upload_name@));
        assert(taken(head)[rest.len() as int] == steps[i]->Upload_name@);
    } else {
        lemma_taken_prefix(steps, i, j - 1);
        let k = choose|k: int| 0 <= k < rest.len() && rest[k] == steps[i]->Upload_name@;
        assert(taken(head)[k] == rest[k]);
    }
}

/// The files of one message get different names, and none that the directory holds.
pub proof fn plan_has_fresh_names(
    steps: Seq<AttachStep>,
    conversation_id: Uuid,
    files: Seq<Location>,
    items: Seq<Seq<char>>,
)
    requires
        is_plan(steps, conversation_id, files, items),
    ensures
        forall|i: int|
            0 <= i < steps.len() && (#[trigger] steps[i]) is Upload ==> !items.contains(
                steps[i]->Upload_name@,
            ),
        forall|i: int, j: int|
            0 <= i < j < steps.len() && (#[trigger] steps[i]) is Upload && (
            #[trigger] steps[j]) is Upload ==> steps[i]->Upload_name@ != steps[j]->Upload_name@,
{
    assert forall|j: int| 0 <= j < steps.len() && (#[trigger] steps[j]) is Upload implies
        !file_name::in_use(taken(steps.take(j)), items, steps[j]->Upload_name@) by {
        let waiting = taken(steps.take(j));
        match files[j] {
            Location::Stream { name } => {
                file_name::free_name_is_free(name@, waiting, items, 0);
            },
            Location::Disk { path, .. } => {
                match file_name::last_component(path@) {
                    Some(name) => {
                        file_name::free_name_is_free(name, waiting, items, 0);
                    },
                    None => {},
                }
            },
            Location::Constellation { .. } => {},
        }
    }
    assert forall|i: int, j: int|
        0 <= i < j < steps.len() && (#[trigger] steps[i]) is Upload && (
        #[trigger] steps[j]) is Upload implies steps[i]->Upload_name@
        != steps[j]->Upload_name@ by {
        lemma_taken_prefix(steps, i, j);
    }
}

/// The directory of a conversation in the own storage.
pub fn conversation_directory(conversation_id: Uuid) -> (r: String)
    ensures
        r@ == directory_text(conversation_id),
{
    proof {
        reveal_strlit("/chat_media/");
        assert("/chat_media/"@ == seq!['/'] + chat_directory_text() + seq!['/']);
    }
    "/chat_media/".to_owned().concat(write_uuid(conversation_id).as_str())
}

fn file_path(conversation_id: Uuid, name: &str) -> (r: String)
    ensures
        r@ == file_path_text(conversation_id, name@),
{
    proof {
        reveal_strlit("/");
        assert("/"@ == seq!['/']);
    }
    conversation_directory(conversation_id).concat("/").concat(name)
}

fn upload_step(
    conversation_id: Uuid,
    wanted: &str,
    waiting: &mut Vec<String>,
    items: &Vec<String>,
) -> (r: AttachStep)
    ensures
        is_upload(
            r,
            conversation_id,
            wanted@,
            file_name::texts(old(waiting)@),
            file_name::texts(items@),
        ),
        file_name::texts(final(waiting)@) == (match r {
            AttachStep::Upload { name, .. } => file_name::texts(old(waiting)@).push(name@),
            _ => file_name::texts(old(waiting)@),
        }),
{
    match choose_name(wanted, waiting, items) {
        NameChoice::Free(name) => {
            let path = file_path(conversation_id, name.as_str());
            let ghost before = waiting@;
            waiting.push(name.clone());
            assert(file_name::texts(waiting@) == file_name::texts(before).push(name@));
            AttachStep::Upload { name, path }
        },
        NameChoice::Exhausted(name) => AttachStep::Failed { name },
    }
}

/// What is done with the files, one after the other, when the directory holds `items`.
pub fn plan_attachments(conversation_id: Uuid, files: &Vec<Location>, items: &Vec<String>) -> (r:
    Vec<AttachStep>)
    ensures
        is_plan(r@, conversation_id, files@, file_name::texts(items@)),
{
    let mut steps: Vec<AttachStep> = Vec::new();
    let mut waiting: Vec<String> = Vec::new();
    let mut i: usize = 0;
    assert(file_name::texts(waiting@) == taken(steps@));
    while i < files.len()
        invariant
            i <= files@.len(),
            steps@.len() == i,
            file_name::texts(waiting@) == taken(steps@),
            forall|j: int|
                0 <= j < i ==> is_step(
                    #[trigger] steps@[j],
                    conversation_id,
                    files@[j],
                    taken(steps@.take(j)),
                    file_name::texts(items@),
                ),
        decreases files@.len() - i,
    {
        let ghost before = steps@;
        let step = match &files[i] {
            Location::Constellation { path } => AttachStep::Existing { path: path.clone() },
            Location::Stream { name } => upload_step(
                conversation_id,
                name.as_str(),
                &mut waiting,
                items,
            ),
            Location::Disk { path, .. } => match file_name_of(path.as_str()) {
                Some(name) => upload_step(conversation_id, name.as_str(), &mut waiting, items),
                None => AttachStep::Skipped,
            },
        };
        steps.push(step);
        proof {
            assert(steps@.drop_last() == before);
            assert(steps@.last() == step);
            assert forall|j: int| 0 <= j < i + 1 implies is_step(
                #[trigger] steps@[j],
                conversation_id,
                files@[j],
                taken(steps@.take(j)),
                file_name::texts(items@),
            ) by {
                if j < i {
                    assert(steps@[j] == before[j]);
                    assert(steps@.take(j) == before.take(j));
                } else {
                    assert(steps@.take(j) == before);
                }
            }
        }
        i = i + 1;
    }
    steps
}

pub fn count_attachable(locations: &Vec<Location>) -> (r: usize)
    ensures
        r == attachable(locations@).len(),
{
    let mut n: usize = 0;
    let mut i: usize = 0;
    proof {
        reveal(Seq::filter);
        assert(locations@.take(0) == Seq::<Location>::empty());
    }
    while i < locations.len()
        invariant
            i <= locations@.len(),
            n <= i,
            n == attachable(locations@.take(i as int)).len(),
        decreases locations@.len() - i,
    {
        proof {
            reveal(Seq::filter);
            assert(locations@.take(i + 1).drop_last() == locations@.take(i as int));
            assert(locations@.take(i + 1).last() == locations@[i as int]);
        }
        let counts: bool = match &locations[i] {
            Location::Disk { is_file, .. } => *is_file,
            _ => true,
        };
        if counts {
            n = n + 1;
        }
        i = i + 1;
    }
    assert(locations@.take(locations@.len() as int) == locations@);
    n
}

/// The files that can be attached, in order.
pub fn keep_attachable(locations: Vec<Location>) -> (r: Vec<Location>)
    ensures
        r@ == attachable(locations@),
{
    let ghost all = locations@;
    let n: usize = locations.len();
    let mut rest = locations;
    let mut kept: Vec<Location> = Vec::new();
    let mut i: usize = 0;
    proof {
        reveal(Seq::filter);
        assert(all.take(0) == Seq::<Location>::empty());
        assert(all.skip(0) == all);
    }
    while i < n
        invariant
            n == all.len(),
            i <= n,
            rest@ == all.skip(i as int),
            kept@ == attachable(all.take(i as int)),
        decreases n - i,
    {
        proof {
            reveal(Seq::filter);
            assert(all.take(i + 1).drop_last() == all.take(i as int));
            assert(all.take(i + 1).last() == all[i as int]);
            assert(rest@[0] == all[i as int]);
        }
        let location = rest.remove(0);
        assert(rest@ == all.skip(i + 1));
        let keep: bool = match &location {
            Location::Disk { is_file, .. } => *is_file,
            _ => true,
        };
        if keep {
            kept.push(location);
        }
        i = i + 1;
    }
    assert(all.take(all.len() as int) == all);
    kept
}

/// How the upload of a file goes on.
pub enum UploadEvent {
    /// Some of it is stored.
    Progress,
    /// All of it is stored. Holds the file, where it is found in the own storage.
    Complete { file: Option<Attachment> },
    Failed,
}

/// How the upload of the file at a place of the plan goes on.
pub struct Upload {
    pub location: usize,
    pub event: UploadEvent,
}

/// What is shown of an upload.
#[derive(Clone, Copy, PartialEq, Eq, Structural, Debug)]
pub enum Progression {
    CurrentProgress,
    ProgressComplete,
    ProgressFailed,
}

/// What whoever attaches files is told.
pub enum AttachmentKind {
    /// The upload of the file at a place of the plan goes on.
    AttachedProgress { location: usize, progress: Progression },
    /// What became of the message. Nothing follows it.
    Pending(Result<(), Error>),
}

/// What is shown of an upload.
pub open spec fn progress_of(event: UploadEvent) -> Progression {
    match event {
        UploadEvent::Progress => Progression::CurrentProgress,
        UploadEvent::Complete { .. } => Progression::ProgressComplete,
        UploadEvent::Failed => Progression::ProgressFailed,
    }
}

/// What became of the message. `stored` is what came of storing it, where there was one.
pub open spec fn pending_outcome(
    uploads: Seq<Upload>,
    stored: Result<(), Error>,
) -> Result<(), Error> {
    if stored_files(uploads).len() == 0 {
        Err(Error::NoAttachments)
    } else {
        stored
    }
}

/// What whoever attaches files is told, in order.
pub open spec fn yielded(uploads: Seq<Upload>, stored: Result<(), Error>) -> Seq<AttachmentKind> {
    Seq::new(
        uploads.len(),
        |i: int|
            AttachmentKind::AttachedProgress {
                location: uploads[i].location,
                progress: progress_of(uploads[i].event),
            },
    ).push(AttachmentKind::Pending(pending_outcome(uploads, stored)))
}

/// Whoever attaches files is told of each step of each upload, and then, last and once, of the
/// outcome.
pub proof fn outcome_comes_last(uploads: Seq<Upload>, stored: Result<(), Error>)
    ensures
        yielded(uploads, stored).len() == uploads.len() + 1,
        forall|i: int|
            0 <= i < uploads.len() ==> (#[trigger] yielded(uploads, stored)[i]) is AttachedProgress,
        yielded(uploads, stored).last() == AttachmentKind::Pending(
            pending_outcome(uploads, stored),
        ),
        (forall|i: int|
            0 <= i < uploads.len() ==> !((#[trigger] uploads[i]).event matches
                UploadEvent::Complete { file: Some(_) })) ==> yielded(uploads, stored).last()
            == AttachmentKind::Pending(Err(Error::NoAttachments)),
{
    if forall|i: int|
        0 <= i < uploads.len() ==> !((#[trigger] uploads[i]).event matches
            UploadEvent::Complete { file: Some(_) }) {
        lemma_no_files(uploads);
    }
}

proof fn lemma_no_files(uploads: Seq<Upload>)
    requires
        forall|i: int|
            0 <= i < uploads.len() ==> !((#[trigger] uploads[i]).event matches
                UploadEvent::Complete { file: Some(_) }),
    ensures
        stored_files(uploads).len() == 0,
    decreases uploads.len(),
{
    if uploads.len() > 0 {
        let head = uploads.drop_last();
        assert forall|i: int| 0 <= i < head.len() implies !((#[trigger] head[i]).event matches
            UploadEvent::Complete { file: Some(_) }) by {
            assert(head[i] == uploads[i]);
        }
        lemma_no_files(head);
        assert(!(uploads[uploads.len() - 1].event matches UploadEvent::Complete {
            file: Some(_),
        }));
    }
}

/// Every file that was stored is among those that the message gets.
pub proof fn stored_file_is_attached(uploads: Seq<Upload>, i: int, file: Attachment)
    requires
        0 <= i < uploads.len(),
        uploads[i].event == (UploadEvent::Complete { file: Some(file) }),
    ensures
        stored_files(uploads).contains(file),
    decreases uploads.len(),
{
    let all = stored_files(uploads);
    let rest = stored_files(uploads.drop_last());
    if i == uploads.len() - 1 {
        assert(all == rest.push(file));
        assert(all[rest.len() as int] == file);
    } else {
        assert(uploads.drop_last()[i] == uploads[i]);
        stored_file_is_attached(uploads.drop_last(), i, file);
        let k = choose|k: int| 0 <= k < rest.len() && rest[k] == file;
        assert(all[k] == rest[k]);
    }
}

/// What whoever attaches files is told, in order: each step of the uploads, and then the outcome.
pub fn attachment_items(uploads: &Vec<Upload>, stored: Result<(), Error>) -> (r: Vec<
    AttachmentKind,
>)
    ensures
        r@ == yielded(uploads@, stored),
{
    let mut items: Vec<AttachmentKind> = Vec::new();
    let mut i: usize = 0;
    while i < uploads.len()
        invariant
            i <= uploads@.len(),
            items@.len() == i,
            forall|j: int|
                0 <= j < i ==> #[trigger] items@[j] == (AttachmentKind::AttachedProgress {
                    location: uploads@[j].location,
                    progress: progress_of(uploads@[j].event),
                }),
        decreases uploads@.len() - i,
    {
        let progress = match &uploads[i].event {
            UploadEvent::Progress => Progression::CurrentProgress,
            UploadEvent::Complete { .. } => Progression::ProgressComplete,
            UploadEvent::Failed => Progression::ProgressFailed,
        };
        items.push(AttachmentKind::AttachedProgress { location: uploads[i].location, progress });
        i = i + 1;
    }
    let outcome = if collect_files(uploads).len() == 0 {
        Err(Error::NoAttachments)
    } else {
        stored
    };
    items.push(AttachmentKind::Pending(outcome));
    assert(items@ == yielded(uploads@, stored));
    items
}

/// The files that were stored, in the order in which they were.
pub open spec fn stored_files(uploads: Seq<Upload>) -> Seq<Attachment>
    decreases uploads.len(),
{
    if uploads.len() == 0 {
        Seq::empty()
    } else {
        let rest = stored_files(uploads.drop_last());
        match uploads.last().event {
            UploadEvent::Complete { file: Some(file) } => rest.push(file),
            _ => rest,
        }
    }
}

/// The files that were stored, in the order in which they were.
pub fn collect_files(uploads: &Vec<Upload>) -> (r: Vec<Attachment>)
    ensures
        r@ == stored_files(uploads@),
{
    let mut files: Vec<Attachment> = Vec::new();
    let mut i: usize = 0;
    assert(uploads@.take(0) == Seq::<Upload>::empty());
    while i < uploads.len()
        invariant
            i <= uploads@.len(),
            files@ == stored_files(uploads@.take(i as int)),
        decreases uploads@.len() - i,
    {
        proof {
            assert(uploads@.take(i + 1).drop_last() == uploads@.take(i as int));
            assert(uploads@.take(i + 1).last() == uploads@[i as int]);
        }
        match &uploads[i].event {
            UploadEvent::Complete { file: Some(file) } => {
                files.push(file.copy());
            },
            _ => {},
        }
        i = i + 1;
    }
    assert(uploads@.take(uploads@.len() as int) == uploads@);
    files
}

/// The name under which a path of the own storage is reported where nothing is found there: its
/// last component, or all of it where it has none.
pub fn missing_name(path: &str) -> (r: String)
    ensures
        r@ == (match file_name::last_component(path@) {
            Some(name) => name,
            None => path@,
        }),
{
    match file_name_of(path) {
        Some(name) => name,
        None => path.to_owned(),
    }
}

/// The message that carries the files, where there are any.
pub fn attachment_message(
    id: Uuid,
    conversation_id: Uuid,
    own: Did,
    date: Timestamp,
    attachments: Vec<Attachment>,
    lines: Vec<String>,
    replied: Option<Uuid>,
) -> (r: Result<Message, Error>)
    ensures
        match r {
            Ok(m) => {
                &&& attachments@.len() > 0
                &&& m == (Message {
                    id,
                    message_type: MessageType::Attachment,
                    conversation_id,
                    sender: own,
                    date,
                    modified: None,
                    replied,
                    pinned: false,
                    lines,
                    reactions: m.reactions,
                    attachments,
                })
                &&& ordered::reaction_entries(m.reactions).len() == 0
            },
            Err(e) => attachments@.len() == 0 && e == Error::NoAttachments,
        },
{
    if attachments.len() == 0 {
        return Err(Error::NoAttachments);
    }
    Ok(
        Message {
            id,
            message_type: MessageType::Attachment,
            conversation_id,
            sender: own,
            date,
            modified: None,
            replied,
            pinned: false,
            lines,
            reactions: reactions_new(),
            attachments,
        },
    )
}

/// Whether a list of files has one of this name first at `i`.
pub open spec fn is_attachment_at(files: Seq<Attachment>, name: Seq<char>, i: int) -> bool {
    &&& 0 <= i < files.len()
    &&& files[i].name@ == name
    &&& forall|j: int| 0 <= j < i ==> (#[trigger] files[j]).name@ != name
}

/// What `ConversationDocument::find_attachment` returns: the first file of that name.
pub open spec fn find_post(
    doc: ConversationDocument,
    r: Result<&Attachment, Error>,
    message_id: Uuid,
    file: Seq<char>,
) -> bool {
    if !document::has_message(doc.messages@, message_id) {
        r == Err::<&Attachment, Error>(Error::MessageNotFound)
    } else {
        let m = doc.messages@[document::message_index(doc.messages@, message_id)];
        if m.message_type != MessageType::Attachment {
            r == Err::<&Attachment, Error>(Error::InvalidMessage)
        } else {
            match r {
                Ok(a) => exists|i: int| #[trigger]
                    is_attachment_at(m.attachments@, file, i) && *a == m.attachments@[i],
                Err(e) => {
                    &&& e == Error::FileNotFound
                    &&& forall|i: int|
                        0 <= i < m.attachments@.len() ==> (#[trigger] m.attachments@[i]).name@
                            != file
                },
            }
        }
    }
}

/// Checks that files and lines fit one message.
pub fn check_lengths(locations: &Vec<Location>, lines: &Vec<String>, limits: Limits) -> (r: Result<
    (),
    Error,
>)
    ensures
        match lengths_refusal(locations@, lines@, limits) {
            Some(e) => r == Err::<(), Error>(e),
            None => r is Ok,
        },
{
    if locations.len() > MAX_FILES {
        return Err(
            Error::InvalidLength {
                context: LengthOf::Files,
                current: locations.len(),
                minimum: Some(1),
                maximum: Some(MAX_FILES),
            },
        );
    }
    if lines.len() > 0 {
        let length: usize = text::lines_length(lines);
        if length > limits.max_message_size {
            return Err(
                Error::InvalidLength {
                    context: LengthOf::Message,
                    current: length,
                    minimum: None,
                    maximum: Some(limits.max_message_size),
                },
            );
        }
    }
    Ok(())
}

/// Files on their way into a message.
pub struct Attaching {
    /// The identifier of the message.
    pub id: Uuid,
    pub conversation_id: Uuid,
    pub own: Did,
    /// The message that is replied to.
    pub replied: Option<Uuid>,
    pub lines: Vec<String>,
    /// What is done with each file.
    pub steps: Vec<AttachStep>,
}

/// What files lead to that are attached when the directory of the conversation holds `items`.
pub open spec fn is_attaching(
    attaching: Attaching,
    id: Uuid,
    conversation_id: Uuid,
    own: Did,
    replied: Option<Uuid>,
    locations: Seq<Location>,
    lines: Vec<String>,
    items: Seq<String>,
) -> bool {
    &&& attaching == (Attaching {
        id,
        conversation_id,
        own,
        replied,
        lines,
        steps: attaching.steps,
    })
    &&& is_plan(
        attaching.steps@,
        conversation_id,
        attachable(locations),
        file_name::texts(items),
    )
}

/// What `Attaching::finish` returns.
pub open spec fn finish_post(
    attaching: Attaching,
    r: Result<Message, Error>,
    date: Timestamp,
    uploads: Seq<Upload>,
) -> bool {
    if stored_files(uploads).len() == 0 {
        r == Err::<Message, Error>(Error::NoAttachments)
    } else {
        &&& r matches Ok(m)
        &&& m == (Message {
            id: attaching.id,
            message_type: MessageType::Attachment,
            conversation_id: attaching.conversation_id,
            sender: attaching.own,
            date,
            modified: None,
            replied: attaching.replied,
            pinned: false,
            lines: attaching.lines,
            reactions: m.reactions,
            attachments: m.attachments,
        })
        &&& m.attachments@ == stored_files(uploads)
        &&& ordered::reaction_entries(m.reactions).len() == 0
    }
}

impl Attaching {
    /// The message that is handed on to be stored once the uploads have ended, where any file was
    /// stored.
    pub fn finish(self, date: Timestamp, uploads: &Vec<Upload>) -> (r: Result<Message, Error>)
        ensures
            finish_post(self, r, date, uploads@),
    {
        attachment_message(
            self.id,
            self.conversation_id,
            self.own,
            date,
            collect_files(uploads),
            self.lines,
            self.replied,
        )
    }
}

/// What `ConversationDocument::attach` returns.
pub open spec fn attach_post(
    doc: ConversationDocument,
    r: Result<Attaching, Error>,
    own: Did,
    id: Uuid,
    replied: Option<Uuid>,
    locations: Seq<Location>,
    lines: Vec<String>,
    items: Seq<String>,
    limits: Limits,
) -> bool {
    match attach_refusal(doc, own, locations, lines@, limits) {
        Some(e) => r == Err::<Attaching, Error>(e),
        None => r matches Ok(attaching) && is_attaching(
            attaching,
            id,
            doc.id,
            own,
            replied,
            locations,
            lines,
            items,
        ),
    }
}

impl ConversationDocument {
    /// Checks that files can be attached.
    pub fn check_attach(
        &self,
        own: Did,
        locations: &Vec<Location>,
        lines: &Vec<String>,
        limits: Limits,
    ) -> (r: Result<(), Error>)
        ensures
            match attach_refusal(*self, own, locations@, lines@, limits) {
                Some(e) => r == Err::<(), Error>(e),
                None => r is Ok,
            },
    {
        match check_lengths(locations, lines, limits) {
            Err(e) => return Err(e),
            Ok(()) => {},
        }
        if count_attachable(locations) == 0 {
            return Err(Error::NoAttachments);
        }
        self.check_key(own)
    }

    /// Attaches files to a new message: what is done with each, when the directory of the
    /// conversation holds `items`.
    pub fn attach(
        &self,
        own: Did,
        id: Uuid,
        replied: Option<Uuid>,
        locations: Vec<Location>,
        lines: Vec<String>,
        items: &Vec<String>,
        limits: Limits,
    ) -> (r: Result<Attaching, Error>)
        ensures
            attach_post(*self, r, own, id, replied, locations@, lines, items@, limits),
    {
        match self.check_attach(own, &locations, &lines, limits) {
            Err(e) => return Err(e),
            Ok(()) => {},
        }
        let files = keep_attachable(locations);
        let steps = plan_attachments(self.id, &files, items);
        Ok(Attaching { id, conversation_id: self.id, own, replied, lines, steps })
    }

    /// A file of a message, to be downloaded.
    pub fn find_attachment(&self, message_id: Uuid, file: &str) -> (r: Result<&Attachment, Error>)
        ensures
            find_post(*self, r, message_id, file@),
    {
        let i: usize = match self.position(message_id) {
            Some(i) => i,
            None => return Err(Error::MessageNotFound),
        };
        if self.messages[i].message_type != MessageType::Attachment {
            return Err(Error::InvalidMessage);
        }
        let files = &self.messages[i].attachments;
        let mut k: usize = 0;
        while k < files.len()
            invariant
                k <= files@.len(),
                document::has_message(self.messages@, message_id),
                i == document::message_index(self.messages@, message_id),
                i < self.messages@.len(),
                self.messages@[i as int].message_type == MessageType::Attachment,
                *files == self.messages@[i as int].attachments,
                forall|j: int| 0 <= j < k ==> (#[trigger] files@[j]).name@ != file@,
            decreases files@.len() - k,
        {
            if same_text(files[k].name.as_str(), file) {
                assert(is_attachment_at(files@, file@, k as int));
                return Ok(&files[k]);
            }
            k = k + 1;
        }
        Err(Error::FileNotFound)
    }
}

} // verus!
