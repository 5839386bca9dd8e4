//! What the own acts in a conversation need and do, said of the documents before and after.
use vstd::prelude::*;
use crate::encoding;
use crate::error::{Error, LengthOf, Reason};
use crate::ids::{self, Cid, Did, Timestamp, Uuid};
use crate::ordered;
use crate::text;
use super::chat;
use super::document::{self, ConversationDocument};
use super::incoming::Keeper;
use super::info::{self, ImageDag, ImageKind, ImageSource};
use super::members::{self, GroupPermissionOpt};
use super::message::{self, Message};
use super::reactions;
use super::received::{asks_nobody, does_nothing, lemma_place, only_message_changed};
use super::{
    ConversationImageType, DirectEvent, Effects, GroupPermission, Limits, MailboxCommand,
    MessageEventKind, MessageType, Outgoing, PinState, RayGunEventKind, ReactionState,
};

verus! {

/// The other members are told of a change, and the document is stored. Nobody is asked for anything.
pub open spec fn tells_the_others(effects: Effects, event: Outgoing) -> bool {
    &&& effects.save
    &&& effects.publish matches Some(publication) && publication.event == event
    &&& event is New <==> effects.publish->Some_0.message_id is Some
    &&& asks_nobody(effects)
    &&& effects.ping is None
}

/// The mailboxes are told to keep a message exactly where someone is present.
pub open spec fn keeps_for_the_absent(
    doc: ConversationDocument,
    effects: Effects,
    id: Uuid,
) -> bool {
    effects.direct is None && if doc.spec_recipients().len() > 0 {
        effects.mailbox == Some(MailboxCommand::InsertMessage { message_id: id })
    } else {
        effects.mailbox is None
    }
}

/// Lines make a message where there is one at least, and they measure at least one character and no
/// more than allowed.
pub proof fn lines_make_a_message(lines: Seq<String>, min: usize, max: usize)
    ensures
        message::lines_refusal(lines, min, max) is None <==> lines.len() > 0 && 1
            <= text::measured_length(lines) <= max,
        lines.len() == 0 ==> message::lines_refusal(lines, min, max) == Some(Error::EmptyMessage),
        lines.len() > 0 && message::lines_refusal(lines, min, max) is Some ==> message::lines_refusal(
            lines,
            min,
            max,
        )->Some_0 == (Error::InvalidLength {
            context: LengthOf::Message,
            current: text::measured_length(lines),
            minimum: Some(min),
            maximum: Some(max),
        }),
{
}

/// A message that is sent, as an answer or not, comes last with what it was given, and nothing else
/// changes. It is refused only where its lines make no message, there is nobody to write to, or a
/// message of its identifier is there already.
pub proof fn sent_message_comes_last(
    before: ConversationDocument,
    after: ConversationDocument,
    r: Result<Effects, Error>,
    own: Did,
    id: Uuid,
    date: Timestamp,
    replied: Option<Uuid>,
    lines: Vec<String>,
    limits: Limits,
)
    requires
        replied is None ==> chat::send_message_post(before, after, r, own, id, date, lines, limits),
        replied is Some ==> chat::reply_message_post(
            before,
            after,
            r,
            own,
            id,
            date,
            replied->Some_0,
            lines,
            limits,
        ),
    ensures
        r is Ok <==> {
            &&& message::lines_refusal(
                lines@,
                limits.min_message_size,
                limits.max_message_size,
            ) is None
            &&& before.key_refusal(own) is None
            &&& forall|i: int|
                0 <= i < before.messages@.len() ==> (#[trigger] before.messages@[i]).id != id
        },
        r is Err && message::lines_refusal(
            lines@,
            limits.min_message_size,
            limits.max_message_size,
        ) is None && before.key_refusal(own) is None ==> r == Err::<Effects, Error>(
            Error::MessageFound,
        ),
        message::lines_refusal(
            lines@,
            limits.min_message_size,
            limits.max_message_size,
        ) matches Some(e) ==> r == Err::<Effects, Error>(e),
        r is Err ==> after == before,
        r matches Ok(effects) ==> {
            let last = after.messages@.last();
            &&& after.messages@.len() == before.messages@.len() + 1
            &&& after.messages@.drop_last() == before.messages@
            &&& after == (ConversationDocument { messages: after.messages, ..before })
            &&& last.id == id
            &&& last.lines == lines
            &&& last.sender == own
            &&& last.date == date
            &&& last.conversation_id == before.id
            &&& last.replied == replied
            &&& last.message_type == MessageType::Message
            &&& last.modified is None
            &&& !last.pinned
            &&& ordered::reaction_entries(last.reactions).len() == 0
            &&& last.attachments@.len() == 0
            &&& tells_the_others(effects, Outgoing::New { message_id: id })
            &&& effects.publish->Some_0.message_id == Some(id)
            &&& keeps_for_the_absent(before, effects, id)
            &&& effects.event == Some(
                MessageEventKind::MessageSent { conversation_id: before.id, message_id: id },
            )
        },
{
    if r is Ok {
        assert(after.messages@.drop_last() == before.messages@);
    }
}

/// A message that is put in as a whole comes last as it is, unless one of its identifier is there.
pub proof fn stored_message_comes_last(
    before: ConversationDocument,
    after: ConversationDocument,
    r: Result<Effects, Error>,
    message: Message,
)
    requires
        chat::store_message_post(before, after, r, message),
    ensures
        r is Ok <==> forall|i: int|
            0 <= i < before.messages@.len() ==> (#[trigger] before.messages@[i]).id != message.id,
        r is Err ==> r == Err::<Effects, Error>(Error::MessageFound) && after == before,
        r matches Ok(effects) ==> {
            &&& after.messages@ == before.messages@.push(message)
            &&& after == (ConversationDocument { messages: after.messages, ..before })
            &&& tells_the_others(effects, Outgoing::New { message_id: message.id })
            &&& keeps_for_the_absent(before, effects, message.id)
        },
{
}

/// An own message can be edited, and nobody else's. The edit changes its lines and notes the time;
/// all else stays.
pub proof fn own_message_can_be_edited(
    before: ConversationDocument,
    after: ConversationDocument,
    r: Result<Effects, Error>,
    own: Did,
    id: Uuid,
    lines: Vec<String>,
    now: Timestamp,
    limits: Limits,
    i: int,
)
    requires
        chat::edit_message_post(before, after, r, own, id, lines, now, limits),
        document::distinct_messages(before.messages@),
        0 <= i < before.messages@.len(),
        before.messages@[i].id == id,
        before.key_refusal(own) is None,
        message::lines_refusal(lines@, limits.min_message_size, limits.max_message_size) is None,
    ensures
        r is Ok <==> before.messages@[i].sender == own,
        r is Err ==> r == Err::<Effects, Error>(Error::InvalidMessage) && after == before,
        r matches Ok(effects) ==> {
            &&& only_message_changed(before, after, i)
            &&& after.messages@[i].lines == lines
            &&& after.messages@[i].modified == Some(now)
            &&& after.messages@[i] == (Message {
                lines: after.messages@[i].lines,
                modified: after.messages@[i].modified,
                ..before.messages@[i]
            })
            &&& tells_the_others(effects, Outgoing::Edit { message_id: id, modified: now })
            &&& keeps_for_the_absent(before, effects, id)
            &&& effects.event == Some(
                MessageEventKind::MessageEdited { conversation_id: before.id, message_id: id },
            )
        },
{
    lemma_place(before.messages@, i, id);
}

/// A message that is deleted goes, and the others stay in their order. The others are told where that
/// is asked for, and the mailboxes in any case.
pub proof fn deleted_message_goes(
    before: ConversationDocument,
    after: ConversationDocument,
    r: Result<Effects, Error>,
    id: Uuid,
    broadcast: bool,
    i: int,
)
    requires
        chat::delete_message_post(before, after, r, id, broadcast),
        document::distinct_messages(before.messages@),
        0 <= i < before.messages@.len(),
        before.messages@[i].id == id,
    ensures
        r matches Ok(effects) && {
            &&& effects.save
            &&& effects.mailbox == Some(MailboxCommand::RemoveMessage { message_id: id })
            &&& effects.event == Some(
                MessageEventKind::MessageDeleted { conversation_id: before.id, message_id: id },
            )
            &&& broadcast ==> tells_the_others(effects, Outgoing::Delete { message_id: id })
            &&& !broadcast ==> effects.publish is None
        },
        after.messages@ == before.messages@.take(i) + before.messages@.skip(i + 1),
        after == (ConversationDocument { messages: after.messages, ..before }),
{
    lemma_place(before.messages@, i, id);
    assert(before.messages@.remove(i) == before.messages@.take(i) + before.messages@.skip(i + 1));
}

/// A message is pinned after it was pinned, and not after it was unpinned. What was so already is not
/// told.
pub proof fn pinned_message_is_pinned(
    before: ConversationDocument,
    after: ConversationDocument,
    r: Result<Effects, Error>,
    own: Did,
    id: Uuid,
    state: PinState,
    i: int,
)
    requires
        chat::pin_message_post(before, after, r, own, id, state),
        document::distinct_messages(before.messages@),
        0 <= i < before.messages@.len(),
        before.messages@[i].id == id,
        before.key_refusal(own) is None,
    ensures
        r is Ok,
        only_message_changed(before, after, i),
        after.messages@[i].pinned == (state is Pin),
        after.messages@[i] == (Message { pinned: state is Pin, ..before.messages@[i] }),
        before.messages@[i].pinned == (state is Pin) ==> does_nothing(r->Ok_0),
        before.messages@[i].pinned != (state is Pin) ==> tells_the_others(
            r->Ok_0,
            Outgoing::Pin { member: own, message_id: id, state },
        ) && keeps_for_the_absent(before, r->Ok_0, id),
        !before.messages@[i].pinned && state is Pin ==> r->Ok_0.event == Some(
            MessageEventKind::MessagePinned { conversation_id: before.id, message_id: id },
        ),
        before.messages@[i].pinned && state is Unpin ==> r->Ok_0.event == Some(
            MessageEventKind::MessageUnpinned { conversation_id: before.id, message_id: id },
        ),
{
    lemma_place(before.messages@, i, id);
}

/// An own reaction changes the holders of that reaction by the own identity, and nothing else.
pub proof fn own_reaction_is_kept(
    before: ConversationDocument,
    after: ConversationDocument,
    r: Result<Effects, Error>,
    own: Did,
    id: Uuid,
    state: ReactionState,
    emoji: String,
    limits: Limits,
    i: int,
)
    requires
        chat::react_post(before, after, r, own, id, state, emoji, limits),
        document::distinct_messages(before.messages@),
        0 <= i < before.messages@.len(),
        before.messages@[i].id == id,
        ordered::distinct_keys(ordered::reaction_entries(before.messages@[i].reactions)),
        before.key_refusal(own) is None,
    ensures
        ({
            let kinds = ordered::reaction_entries(before.messages@[i].reactions);
            let held = message::reactors(kinds, emoji@);
            r is Ok <==> match state {
                ReactionState::Add => kinds.len() < limits.max_reactions && !held.contains(own),
                ReactionState::Remove => held.contains(own),
            }
        }),
        r is Err ==> after == before,
        r matches Ok(effects) ==> {
            let held = message::reactors(
                ordered::reaction_entries(before.messages@[i].reactions),
                emoji@,
            );
            let holds = message::reactors(
                ordered::reaction_entries(after.messages@[i].reactions),
                emoji@,
            );
            &&& only_message_changed(before, after, i)
            &&& after.messages@[i] == (Message {
                reactions: after.messages@[i].reactions,
                ..before.messages@[i]
            })
            &&& tells_the_others(
                effects,
                Outgoing::React { reactor: own, message_id: id, state, emoji },
            )
            &&& keeps_for_the_absent(before, effects, id)
            &&& match state {
                ReactionState::Add => holds == held.push(own) && effects.event == Some(
                    MessageEventKind::MessageReactionAdded {
                        conversation_id: before.id,
                        message_id: id,
                        did_key: own,
                        reaction: emoji,
                    },
                ),
                ReactionState::Remove => holds == ids::without(held, own) && effects.event == Some(
                    MessageEventKind::MessageReactionRemoved {
                        conversation_id: before.id,
                        message_id: id,
                        did_key: own,
                        reaction: emoji,
                    },
                ),
            }
        },
{
    lemma_place(before.messages@, i, id);
    let entries = ordered::reaction_entries(before.messages@[i].reactions);
    reactions::holders_change_by_one(entries, own, state, emoji@);
}

/// No act on a message that is not there succeeds or changes anything.
pub proof fn missing_message_stays_missing(
    before: ConversationDocument,
    after: ConversationDocument,
    r: Result<Effects, Error>,
    own: Did,
    id: Uuid,
    lines: Vec<String>,
    now: Timestamp,
    limits: Limits,
    broadcast: bool,
    pin: PinState,
    state: ReactionState,
    emoji: String,
)
    requires
        before.key_refusal(own) is None,
        forall|i: int| 0 <= i < before.messages@.len() ==> (#[trigger] before.messages@[i]).id != id,
    ensures
        chat::edit_message_post(before, after, r, own, id, lines, now, limits)
            && message::lines_refusal(
            lines@,
            limits.min_message_size,
            limits.max_message_size,
        ) is None ==> r == Err::<Effects, Error>(Error::MessageNotFound) && after == before,
        chat::delete_message_post(before, after, r, id, broadcast) ==> r == Err::<Effects, Error>(
            Error::MessageNotFound,
        ) && after == before,
        chat::pin_message_post(before, after, r, own, id, pin) ==> r == Err::<Effects, Error>(
            Error::MessageNotFound,
        ) && after == before,
        chat::react_post(before, after, r, own, id, state, emoji, limits) ==> r == Err::<
            Effects,
            Error,
        >(Error::MessageNotFound) && after == before,
{
}

/// The creator of a group, or a member who may, takes in anyone who is not in, not kept out and not
/// blocked. The newcomer comes last, and is told of the group.
pub proof fn newcomer_is_taken_in(
    before: ConversationDocument,
    after: ConversationDocument,
    r: Result<Effects, Error>,
    own: Did,
    did: Did,
    blocked: bool,
)
    requires
        members::add_participant_post(before, after, r, own, did, blocked),
    ensures
        r is Ok <==> {
            &&& before.conversation_type is Group
            &&& before.creator is Some
            &&& before.creator == Some(own) || before.permits(own, GroupPermission::AddParticipants)
            &&& before.creator != Some(did)
            &&& !blocked
            &&& !before.restrict@.contains(did)
            &&& !before.recipients@.contains(did)
        },
        before.conversation_type is Direct || before.creator is None ==> r == Err::<Effects, Error>(
            Error::InvalidConversation,
        ),
        before.conversation_type is Group && before.creator is Some && (before.creator == Some(did)
            || (before.creator != Some(own) && !before.permits(
            own,
            GroupPermission::AddParticipants,
        ))) ==> r == Err::<Effects, Error>(Error::PublicKeyInvalid),
        before.conversation_type is Group && before.creator == Some(own) && did != own && (blocked
            || before.restrict@.contains(did)) ==> r == Err::<Effects, Error>(
            Error::PublicKeyIsBlocked,
        ),
        before.conversation_type is Group && before.creator == Some(own) && did != own && !blocked
            && !before.restrict@.contains(did) && before.recipients@.contains(did) ==> r == Err::<
            Effects,
            Error,
        >(Error::IdentityExist),
        r is Err ==> after == before,
        r matches Ok(effects) ==> {
            &&& after.recipients@.len() == before.recipients@.len() + 1
            &&& after.recipients@.drop_last() == before.recipients@
            &&& after.recipients@.last() == did
            &&& after == (ConversationDocument { recipients: after.recipients, ..before })
            &&& tells_the_others(effects, Outgoing::AddParticipant { did })
            &&& effects.mailbox is None
            &&& effects.direct == Some(
                (did, DirectEvent::NewGroupConversation { conversation_id: before.id }),
            )
            &&& effects.event == Some(
                MessageEventKind::RecipientAdded { conversation_id: before.id, recipient: did },
            )
        },
{
    if r is Ok {
        assert(after.recipients@.drop_last() == before.recipients@);
    }
}

/// The creator of a group, and nobody else, takes out anyone who is in but itself. The others stay in
/// their order. Who is out is told where that is asked for.
pub proof fn member_is_taken_out(
    before: ConversationDocument,
    after: ConversationDocument,
    r: Result<Effects, Error>,
    own: Did,
    did: Did,
    broadcast: bool,
    other: Did,
)
    requires
        members::remove_participant_post(before, after, r, own, did, broadcast),
    ensures
        r is Ok <==> {
            &&& before.conversation_type is Group
            &&& before.creator == Some(own)
            &&& did != own
            &&& before.recipients@.contains(did)
        },
        before.conversation_type is Direct || before.creator is None ==> r == Err::<Effects, Error>(
            Error::InvalidConversation,
        ),
        before.conversation_type is Group && before.creator is Some && (before.creator != Some(own)
            || did == own) ==> r == Err::<Effects, Error>(Error::PublicKeyInvalid),
        before.conversation_type is Group && before.creator == Some(own) && did != own
            && !before.recipients@.contains(did) ==> r == Err::<Effects, Error>(
            Error::IdentityDoesntExist,
        ),
        r is Err ==> after == before,
        r matches Ok(effects) ==> {
            &&& !after.recipients@.contains(did)
            &&& other != did ==> (after.recipients@.contains(other)
                <==> before.recipients@.contains(other))
            &&& after.recipients@ == ids::without(before.recipients@, did)
            &&& after == (ConversationDocument { recipients: after.recipients, ..before })
            &&& tells_the_others(effects, Outgoing::RemoveParticipant { did })
            &&& effects.mailbox is None
            &&& effects.event == Some(
                MessageEventKind::RecipientRemoved { conversation_id: before.id, recipient: did },
            )
            &&& broadcast ==> effects.direct == Some(
                (did, DirectEvent::DeleteConversation { conversation_id: before.id }),
            )
            &&& !broadcast ==> effects.direct is None
        },
{
    ids::without_members(before.recipients@, did, did);
    ids::without_members(before.recipients@, did, other);
}

/// The creator of a group keeps out whom it has blocked, and lets in again whom it has not. Only the
/// other members are told.
pub proof fn creator_keeps_out_and_lets_in(
    before: ConversationDocument,
    after: ConversationDocument,
    r: Result<Effects, Error>,
    own: Did,
    did: Did,
    blocked: bool,
    other: Did,
)
    ensures
        members::add_restricted_post(before, after, r, own, did, blocked) ==> {
            &&& r is Ok <==> before.conversation_type is Group && before.creator == Some(own) && did
                != own && blocked
            &&& before.conversation_type is Group && before.creator == Some(own) && did != own
                && !blocked ==> r == Err::<Effects, Error>(Error::PublicKeyIsntBlocked)
            &&& before.conversation_type is Group && before.creator is Some && before.creator
                != Some(own) ==> r == Err::<Effects, Error>(Error::PublicKeyInvalid)
            &&& r is Err ==> after == before
            &&& r is Ok ==> {
                &&& after.restrict@ == before.restrict@.push(did)
                &&& after.restrict@.contains(did)
                &&& after == (ConversationDocument { restrict: after.restrict, ..before })
                &&& tells_the_others(r->Ok_0, Outgoing::AddRestricted { did })
                &&& r->Ok_0.mailbox is None && r->Ok_0.direct is None
                &&& r->Ok_0.event is None
            }
        },
        members::remove_restricted_post(before, after, r, own, did, blocked) ==> {
            &&& r is Ok <==> before.conversation_type is Group && before.creator == Some(own) && did
                != own && !blocked
            &&& before.conversation_type is Group && before.creator == Some(own) && did != own
                && blocked ==> r == Err::<Effects, Error>(Error::PublicKeyIsBlocked)
            &&& before.conversation_type is Group && before.creator is Some && before.creator
                != Some(own) ==> r == Err::<Effects, Error>(Error::PublicKeyInvalid)
            &&& r is Err ==> after == before
            &&& r is Ok ==> {
                &&& !after.restrict@.contains(did)
                &&& other != did ==> (after.restrict@.contains(other)
                    <==> before.restrict@.contains(other))
                &&& after == (ConversationDocument { restrict: after.restrict, ..before })
                &&& tells_the_others(r->Ok_0, Outgoing::RemoveRestricted { did })
                &&& r->Ok_0.mailbox is None && r->Ok_0.direct is None
                &&& r->Ok_0.event is None
            }
        },
{
    ids::without_members(before.restrict@, did, did);
    ids::without_members(before.restrict@, did, other);
    if members::add_restricted_post(before, after, r, own, did, blocked) && r is Ok {
        assert(after.restrict@[before.restrict@.len() as int] == did);
    }
}

/// A member leaves a group by its own signature. The creator takes it out at once; the others note
/// that it has left, once.
pub proof fn member_leaves_by_its_signature(
    before: ConversationDocument,
    after: ConversationDocument,
    r: Result<Effects, Error>,
    own: Did,
    member: Did,
    signature: String,
    genuine: bool,
)
    requires
        members::add_exclusion_post(before, after, r, own, member, signature, genuine),
    ensures
        r is Ok <==> {
            &&& before.conversation_type is Group
            &&& before.creator is Some
            &&& before.creator != Some(member)
            &&& before.recipients@.contains(member)
            &&& before.creator == Some(own) || (genuine && encoding::base58_decoded(
                signature@,
            ) is Some)
        },
        before.conversation_type is Direct ==> r == Err::<Effects, Error>(
            Error::OtherWithContext(Reason::LeaveOnlyGroup),
        ),
        before.conversation_type is Group && before.creator is None ==> r == Err::<Effects, Error>(
            Error::OtherWithContext(Reason::GroupWithoutCreator),
        ),
        before.conversation_type is Group && before.creator == Some(member) ==> r == Err::<
            Effects,
            Error,
        >(Error::OtherWithContext(Reason::RemoveCreator)),
        before.conversation_type is Group && before.creator is Some && before.creator != Some(
            member,
        ) && !before.recipients@.contains(member) ==> r == Err::<Effects, Error>(
            Error::OtherWithContext(Reason::NotAMember { member, conversation_id: before.id }),
        ),
        before.conversation_type is Group && before.creator is Some && before.creator != Some(
            member,
        ) && before.recipients@.contains(member) && before.creator != Some(own) && !genuine ==> r
            == Err::<Effects, Error>(Error::OtherWithContext(Reason::InvalidSignature)),
        r is Err ==> after == before,
        r is Ok && before.creator == Some(own) ==> {
            &&& !after.recipients@.contains(member)
            &&& after.recipients@ == ids::without(before.recipients@, member)
            &&& after == (ConversationDocument { recipients: after.recipients, ..before })
            &&& tells_the_others(r->Ok_0, Outgoing::RemoveParticipant { did: member })
        },
        r is Ok && before.creator != Some(own) ==> {
            &&& exists|j: int|
                0 <= j < after.excluded@.len() && (#[trigger] after.excluded@[j]).did == member
            &&& after == (ConversationDocument { excluded: after.excluded, ..before })
            &&& r->Ok_0.publish is None
            &&& r->Ok_0.save
        },
        r is Ok && before.creator != Some(own) && (forall|j: int|
            0 <= j < before.excluded@.len() ==> (#[trigger] before.excluded@[j]).did != member)
            ==> {
            &&& after.excluded@.len() == before.excluded@.len() + 1
            &&& after.excluded@.drop_last() == before.excluded@
            &&& after.excluded@.last().did == member
            &&& after.excluded@.last().signature == signature
            &&& r->Ok_0.event == Some(
                MessageEventKind::RecipientRemoved {
                    conversation_id: before.id,
                    recipient: member,
                },
            )
        },
        r is Ok && before.creator != Some(own) && (exists|j: int|
            0 <= j < before.excluded@.len() && (#[trigger] before.excluded@[j]).did == member)
            ==> after == before && r->Ok_0.event is None,
{
    ids::without_members(before.recipients@, member, member);
    if r is Ok && before.creator != Some(own) {
        if document::has_left(before.excluded@, member) {
        } else {
            assert(after.excluded@[before.excluded@.len() as int].did == member);
            assert(after.excluded@.drop_last() == before.excluded@);
        }
    }
}

/// The creator, and nobody else, gives a group all its permissions anew. The others are told, and the
/// subscribers of what was given and what was taken away.
pub proof fn creator_gives_the_permissions(
    before: ConversationDocument,
    after: ConversationDocument,
    r: Result<Effects, Error>,
    own: Did,
    permissions: GroupPermissionOpt,
)
    requires
        members::update_permissions_post(before, after, r, own, permissions),
    ensures
        r is Ok <==> before.creator == Some(own),
        before.creator is None ==> r == Err::<Effects, Error>(Error::InvalidConversation),
        before.creator is Some && before.creator != Some(own) ==> r == Err::<Effects, Error>(
            Error::PublicKeyInvalid,
        ),
        r is Err ==> after == before,
        r is Ok ==> tells_the_others(r->Ok_0, Outgoing::ChangePermissions) && r->Ok_0.mailbox is None
            && r->Ok_0.direct is None,
        r is Ok && permissions is All ==> {
            &&& after.permissions == permissions->All_0
            &&& after == (ConversationDocument { permissions: after.permissions, ..before })
            &&& r->Ok_0.event matches Some(
                MessageEventKind::ConversationPermissionsUpdated {
                    conversation_id,
                    added,
                    removed,
                },
            )
            &&& conversation_id == before.id
            &&& added@ == members::granted_beyond(
                ordered::permission_entries(permissions->All_0),
                ordered::permission_entries(before.permissions),
            )
            &&& removed@ == members::granted_beyond(
                ordered::permission_entries(before.permissions),
                ordered::permission_entries(permissions->All_0),
            )
        },
        r is Ok && permissions is Single ==> after == before,
{
}

/// A group is named by its creator and by those who may. The name is kept without white space around
/// it, and an empty one takes the name away.
pub proof fn given_name_is_kept(
    before: ConversationDocument,
    after: ConversationDocument,
    r: Result<Effects, Error>,
    own: Did,
    name: Seq<char>,
)
    requires
        info::update_name_post(before, after, r, own, name),
    ensures
        r is Ok <==> {
            &&& text::byte_length(text::trimmed(name)) <= 255
            &&& before.conversation_type is Group
            &&& before.creator is Some
            &&& before.creator == Some(own) || before.permits(own, GroupPermission::SetGroupName)
        },
        text::byte_length(text::trimmed(name)) > 255 ==> r == Err::<Effects, Error>(
            Error::InvalidLength {
                context: LengthOf::Name,
                current: text::byte_length(text::trimmed(name)),
                minimum: None,
                maximum: Some(255),
            },
        ),
        text::byte_length(text::trimmed(name)) <= 255 && (before.conversation_type is Direct
            || before.creator is None) ==> r == Err::<Effects, Error>(Error::InvalidConversation),
        r is Err && text::byte_length(text::trimmed(name)) <= 255 && before.conversation_type
            is Group && before.creator is Some ==> r == Err::<Effects, Error>(
            Error::PublicKeyInvalid,
        ),
        r is Err ==> after == before,
        r is Ok ==> {
            &&& after == (ConversationDocument { name: after.name, ..before })
            &&& text::trimmed(name).len() == 0 <==> after.name is None
            &&& after.name matches Some(n) ==> n@ == text::trimmed(name)
            &&& tells_the_others(r->Ok_0, Outgoing::ChangeName { name: after.name })
            &&& r->Ok_0.mailbox is None && r->Ok_0.direct is None
            &&& r->Ok_0.event matches Some(
                MessageEventKind::ConversationNameUpdated { conversation_id, name: shown },
            )
            &&& conversation_id == before.id
            &&& shown@ == text::trimmed(name)
        },
{
}

/// A conversation is described by anyone in a direct conversation and by the creator in a group. An
/// empty description is none.
pub proof fn given_description_is_kept(
    before: ConversationDocument,
    after: ConversationDocument,
    r: Result<Effects, Error>,
    own: Did,
    description: Option<String>,
    limits: Limits,
)
    requires
        info::set_description_post(before, after, r, own, description, limits),
    ensures
        r is Ok <==> {
            &&& before.conversation_type is Group ==> before.creator == Some(own)
            &&& description matches Some(d) ==> d@.len() > 0 && text::byte_length(d@)
                <= limits.max_description
        },
        before.conversation_type is Group && before.creator != Some(own) ==> r == Err::<
            Effects,
            Error,
        >(Error::InvalidConversation),
        r is Err && (before.conversation_type is Direct || before.creator == Some(own)) ==> r
            == Err::<Effects, Error>(
            Error::InvalidLength {
                context: LengthOf::Description,
                current: text::byte_length(description->Some_0@),
                minimum: Some(1),
                maximum: Some(limits.max_description),
            },
        ),
        r is Err ==> after == before,
        r is Ok ==> {
            &&& after.description == description
            &&& after == (ConversationDocument { description: after.description, ..before })
            &&& tells_the_others(r->Ok_0, Outgoing::ChangeDescription { description })
            &&& r->Ok_0.mailbox is None && r->Ok_0.direct is None
            &&& r->Ok_0.event == Some(
                MessageEventKind::ConversationDescriptionChanged {
                    conversation_id: before.id,
                    description,
                },
            )
        },
{
}

/// An image is given to a direct conversation by anyone and to a group by its creator, where it is
/// not too great and, coming from the own storage, refers to something.
pub proof fn given_image_is_kept(
    before: ConversationDocument,
    after: ConversationDocument,
    r: Result<Effects, Error>,
    own: Did,
    image_type: ConversationImageType,
    source: ImageSource,
    cid: Cid,
    limits: Limits,
    keeper: Keeper,
)
    requires
        info::update_conversation_image_post(
            before,
            after,
            r,
            own,
            image_type,
            source,
            cid,
            limits,
            keeper,
        ),
    ensures
        ({
            let max = match image_type {
                ConversationImageType::Icon => limits.max_icon_size,
                ConversationImageType::Banner => limits.max_banner_size,
            };
            r is Ok <==> {
                &&& before.conversation_type is Group ==> before.creator == Some(own)
                &&& source matches ImageSource::Constellation { size, reference, .. } ==> size <= max
                    && reference is Some
                &&& source matches ImageSource::Disk { size, .. } ==> size <= max
                &&& source matches ImageSource::Stream { bytes, .. } ==> bytes@.len() <= max
            }
        }),
        before.conversation_type is Group && before.creator != Some(own) ==> r == Err::<
            Effects,
            Error,
        >(Error::InvalidConversation),
        r is Err && (before.conversation_type is Direct || before.creator == Some(own)) && !(
        source is Constellation) ==> r == Err::<Effects, Error>(
            Error::OtherWithContext(Reason::ReadLimit),
        ),
        r is Err ==> after == before,
        r is Ok && image_type is Icon ==> {
            &&& after == (ConversationDocument { icon: Some(cid), ..before })
            &&& tells_the_others(r->Ok_0, Outgoing::AddedIcon)
            &&& r->Ok_0.mailbox is None && r->Ok_0.direct is None
            &&& r->Ok_0.event == Some(
                MessageEventKind::ConversationUpdatedIcon { conversation_id: before.id },
            )
        },
        r is Ok && image_type is Banner ==> {
            &&& after == (ConversationDocument { banner: Some(cid), ..before })
            &&& tells_the_others(r->Ok_0, Outgoing::AddedBanner)
            &&& r->Ok_0.mailbox is None && r->Ok_0.direct is None
            &&& r->Ok_0.event == Some(
                MessageEventKind::ConversationUpdatedBanner { conversation_id: before.id },
            )
        },
{
}

/// What is stored of an image says where it is, how great it is and, as far as that is known, of what
/// kind.
pub proof fn stored_image_says_what_it_is(
    doc: ConversationDocument,
    r: Result<ImageDag, Error>,
    own: Did,
    image_type: ConversationImageType,
    source: ImageSource,
    limits: Limits,
    keeper: Keeper,
)
    requires
        info::prepare_image_post(doc, r, own, image_type, source, limits, keeper),
        r is Ok,
    ensures
        source matches ImageSource::Constellation { size, file_type, reference } ==> reference
            == Some(r->Ok_0.link) && r->Ok_0.size == size && r->Ok_0.mime == ImageKind::Mime(
            file_type,
        ),
        source matches ImageSource::Disk { size, link, .. } ==> r->Ok_0.link == link && r->Ok_0.size
            == size && !(r->Ok_0.mime is Mime),
        source matches ImageSource::Stream { bytes, link } ==> r->Ok_0.link == link && r->Ok_0.size
            == bytes@.len() && !(r->Ok_0.mime is Extension),
        image_type is Icon ==> r->Ok_0.size <= limits.max_icon_size,
        image_type is Banner ==> r->Ok_0.size <= limits.max_banner_size,
{
}

/// An image is taken away where there is one, by anyone from a direct conversation and from a group by
/// its creator. The other image stays.
pub proof fn removed_image_is_gone(
    before: ConversationDocument,
    after: ConversationDocument,
    r: Result<Effects, Error>,
    own: Did,
    image_type: ConversationImageType,
)
    requires
        info::remove_conversation_image_post(before, after, r, own, image_type),
    ensures
        r is Ok <==> {
            &&& before.conversation_type is Group ==> before.creator == Some(own)
            &&& image_type is Icon ==> before.icon is Some
            &&& image_type is Banner ==> before.banner is Some
        },
        before.conversation_type is Group && before.creator != Some(own) ==> r == Err::<
            Effects,
            Error,
        >(Error::InvalidConversation),
        r is Err && (before.conversation_type is Direct || before.creator == Some(own)) ==> r
            == Err::<Effects, Error>(Error::ObjectNotFound),
        r is Err ==> after == before,
        r is Ok && image_type is Icon ==> after == (ConversationDocument { icon: None, ..before })
            && tells_the_others(r->Ok_0, Outgoing::RemovedIcon) && r->Ok_0.event == Some(
            MessageEventKind::ConversationUpdatedIcon { conversation_id: before.id },
        ) && r->Ok_0.mailbox is None && r->Ok_0.direct is None,
        r is Ok && image_type is Banner ==> after == (ConversationDocument {
            banner: None,
            ..before
        }) && tells_the_others(r->Ok_0, Outgoing::RemovedBanner) && r->Ok_0.event == Some(
            MessageEventKind::ConversationUpdatedBanner { conversation_id: before.id },
        ) && r->Ok_0.mailbox is None && r->Ok_0.direct is None,
{
}

/// A conversation is archived or not as was asked for, and the subscribers are told where that is new.
pub proof fn archived_conversation_is_archived(
    before: ConversationDocument,
    after: ConversationDocument,
    r: Option<RayGunEventKind>,
)
    ensures
        info::archived_conversation_post(before, after, r) ==> {
            &&& after.archived
            &&& after == (ConversationDocument { archived: after.archived, ..before })
            &&& r is Some <==> !before.archived
            &&& r is Some ==> r == Some(
                RayGunEventKind::ConversationArchived { conversation_id: before.id },
            )
        },
        info::unarchived_conversation_post(before, after, r) ==> {
            &&& !after.archived
            &&& after == (ConversationDocument { archived: after.archived, ..before })
            &&& r is Some <==> before.archived
            &&& r is Some ==> r == Some(
                RayGunEventKind::ConversationUnarchived { conversation_id: before.id },
            )
        },
{
}

} // verus!
