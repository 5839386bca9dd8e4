//! What holds of conversations that come and go, said of what the store holds before and after.
use vstd::prelude::*;
use crate::error::{Error, LengthOf};
use crate::ids::{self, Did, Uuid};
use crate::ordered;
use crate::text;
use super::document::{self, ConversationDocument};
use super::identities::{self, Measure, MultiPassEventKind};
use super::incoming::{self, ConversationUpdateKind, Keeper, MessagingEvents};
use super::keys::{self, KeyEntry, Keystore};
use super::lifecycle::{self, Created, Deleted};
use super::members::GroupPermissionOpt;
use super::store::{self, ConversationInner, PendingList, StoredKeystore};
use super::{Effects, RayGunEventKind};

verus! {

/// The key of a member is the one that it gave last, and a member that gave none has none.
pub proof fn latest_key_is_the_last_given(entries: Seq<KeyEntry>, did: Did, i: int)
    ensures
        0 <= i < entries.len() && entries[i].did == did && (forall|j: int|
            i < j < entries.len() ==> (#[trigger] entries[j]).did != did) ==> keys::latest_key(
            entries,
            did,
        ) == Some(entries[i].key@),
        (forall|j: int| 0 <= j < entries.len() ==> (#[trigger] entries[j]).did != did)
            ==> keys::latest_key(entries, did) is None,
    decreases entries.len(),
{
    if entries.len() > 0 {
        let head = entries.drop_last();
        let last = entries.len() - 1;
        latest_key_is_the_last_given(head, did, i);
        if 0 <= i < last && forall|j: int|
            i < j < entries.len() ==> (#[trigger] entries[j]).did != did {
            assert(entries[last].did != did);
            assert forall|j: int| i < j < head.len() implies (#[trigger] head[j]).did != did by {
                assert(entries[j].did != did);
            }
        }
        if forall|j: int| 0 <= j < entries.len() ==> (#[trigger] entries[j]).did != did {
            assert(entries[last].did != did);
            assert forall|j: int| 0 <= j < head.len() implies (#[trigger] head[j]).did != did by {
                assert(entries[j].did != did);
            }
        }
    }
}

/// The keystore of a group is the one that stands beside it.
pub proof fn keystore_stands_beside_its_group(entries: Seq<StoredKeystore>, id: Uuid, i: int)
    ensures
        0 <= i < entries.len() && entries[i].id == id && (forall|j: int|
            i < j < entries.len() ==> (#[trigger] entries[j]).id != id) ==> lifecycle::keystore_of(
            entries,
            id,
        ) == Some(entries[i].keystore),
        (forall|j: int| 0 <= j < entries.len() ==> (#[trigger] entries[j]).id != id)
            ==> lifecycle::keystore_of(entries, id) is None,
    decreases entries.len(),
{
    if entries.len() > 0 {
        let head = entries.drop_last();
        let last = entries.len() - 1;
        keystore_stands_beside_its_group(head, id, i);
        if 0 <= i < last && forall|j: int|
            i < j < entries.len() ==> (#[trigger] entries[j]).id != id {
            assert(entries[last].id != id);
            assert forall|j: int| i < j < head.len() implies (#[trigger] head[j]).id != id by {
                assert(entries[j].id != id);
            }
        }
        if forall|j: int| 0 <= j < entries.len() ==> (#[trigger] entries[j]).id != id {
            assert(entries[last].id != id);
            assert forall|j: int| 0 <= j < head.len() implies (#[trigger] head[j]).id != id by {
                assert(entries[j].id != id);
            }
        }
    }
}

/// Where no conversation occurs twice, it is found at its place.
pub proof fn conversation_is_found_at_its_place(
    conversations: Seq<ConversationDocument>,
    id: Uuid,
    i: int,
)
    requires
        store::distinct_conversations(conversations),
        0 <= i < conversations.len(),
        conversations[i].id == id,
    ensures
        store::has_conversation(conversations, id),
        store::conversation_index(conversations, id) == i,
{
    store::lemma_has_conversation(conversations, id);
    let k = store::conversation_index(conversations, id);
    if k != i {
        assert(conversations[k].id == conversations[i].id);
    }
}

/// A conversation that is put in is there. It takes the place of one with its identifier, or comes
/// last; the others stay where they are.
pub proof fn put_conversation_is_there(
    conversations: Seq<ConversationDocument>,
    doc: ConversationDocument,
    i: int,
)
    requires
        store::distinct_conversations(conversations),
    ensures
        0 <= i < conversations.len() && conversations[i].id == doc.id
            ==> lifecycle::with_conversation(conversations, doc) == conversations.update(i, doc),
        (forall|j: int| 0 <= j < conversations.len() ==> (#[trigger] conversations[j]).id != doc.id)
            ==> lifecycle::with_conversation(conversations, doc) == conversations.push(doc),
{
    if 0 <= i < conversations.len() && conversations[i].id == doc.id {
        conversation_is_found_at_its_place(conversations, doc.id, i);
    }
}

/// Both are present in a direct conversation.
pub open spec fn is_between(doc: ConversationDocument, a: Did, b: Did) -> bool {
    &&& doc.conversation_type is Direct
    &&& doc.spec_recipients().contains(a)
    &&& doc.spec_recipients().contains(b)
}

proof fn lemma_first_direct(conversations: Seq<ConversationDocument>, own: Did, other: Did)
    ensures
        lifecycle::first_direct(conversations, own, other) is None <==> forall|i: int|
            0 <= i < conversations.len() ==> !is_between(#[trigger] conversations[i], own, other),
        lifecycle::first_direct(conversations, own, other) matches Some(id) ==> exists|i: int|
            0 <= i < conversations.len() && (#[trigger] conversations[i]).id == id && is_between(
                conversations[i],
                own,
                other,
            ),
    decreases conversations.len(),
{
    if conversations.len() > 0 {
        let rest = conversations.drop_first();
        lemma_first_direct(rest, own, other);
        if is_between(conversations[0], own, other) {
            assert(conversations[0].id == conversations[0].id);
        } else {
            assert forall|i: int| 0 <= i < rest.len() implies #[trigger] rest[i] == conversations[i
                + 1] by {}
            if lifecycle::first_direct(rest, own, other) is None {
                assert forall|i: int| 0 <= i < conversations.len() implies !is_between(
                    #[trigger] conversations[i],
                    own,
                    other,
                ) by {
                    if i > 0 {
                        assert(!is_between(rest[i - 1], own, other));
                    }
                }
            } else {
                let id = lifecycle::first_direct(rest, own, other)->Some_0;
                let i = choose|i: int|
                    0 <= i < rest.len() && (#[trigger] rest[i]).id == id && is_between(
                        rest[i],
                        own,
                        other,
                    );
                assert(conversations[i + 1].id == id);
                assert(is_between(conversations[i + 1], own, other));
            }
        }
    }
}

/// A direct conversation is begun with anyone else who is not blocked and with whom there is none
/// yet. The two are in it, it is empty and open, and the other is told.
pub proof fn direct_conversation_begins(
    before: ConversationInner,
    after: ConversationInner,
    r: Result<Created, Error>,
    other: Did,
    blocked: bool,
    id: Uuid,
)
    requires
        lifecycle::create_conversation_post(before, after, r, other, blocked, id),
        forall|i: int|
            0 <= i < before.conversations@.len() ==> (#[trigger] before.conversations@[i]).id != id,
    ensures
        r is Ok <==> {
            &&& !blocked
            &&& other != before.own
            &&& forall|i: int|
                0 <= i < before.conversations@.len() ==> !is_between(
                    #[trigger] before.conversations@[i],
                    before.own,
                    other,
                )
        },
        r is Err ==> after == before,
        blocked ==> r == Err::<Created, Error>(Error::PublicKeyIsBlocked),
        !blocked && other == before.own ==> r == Err::<Created, Error>(
            Error::CannotCreateConversation,
        ),
        !blocked && other != before.own && r is Err ==> exists|i: int|
            {
                &&& 0 <= i < before.conversations@.len()
                &&& is_between(#[trigger] before.conversations@[i], before.own, other)
                &&& r == Err::<Created, Error>(
                    Error::ConversationExist { conversation_id: before.conversations@[i].id },
                )
            },
        r is Ok ==> {
            let doc = after.conversations@.last();
            &&& after.conversations@.len() == before.conversations@.len() + 1
            &&& after.conversations@.drop_last() == before.conversations@
            &&& doc.id == id
            &&& doc.conversation_type is Direct
            &&& doc.recipients@.len() == 2
            &&& doc.recipients@[0] == before.own
            &&& doc.recipients@[1] == other
            &&& doc.creator is None
            &&& doc.name is None && doc.description is None
            &&& doc.icon is None && doc.banner is None
            &&& ordered::permission_entries(doc.permissions).len() == 0
            &&& doc.messages@.len() == 0
            &&& doc.excluded@.len() == 0
            &&& doc.restrict@.len() == 0
            &&& !doc.deleted && !doc.archived && !doc.favorite
            &&& after.open@.contains(id)
            &&& after.keystores == before.keystores
            &&& after.queue == before.queue
            &&& r->Ok_0.tell@ == seq![other]
            &&& r->Ok_0.discover@ == seq![other]
            &&& r->Ok_0.request_keys@.len() == 0
            &&& r->Ok_0.event == RayGunEventKind::ConversationCreated { conversation_id: id }
        },
{
    lemma_first_direct(before.conversations@, before.own, other);
    if r is Ok {
        let doc = choose|doc: ConversationDocument|
            lifecycle::is_new_direct(doc, id, before.own, other) && after.conversations@
                == #[trigger] lifecycle::with_conversation(before.conversations@, doc);
        assert(after.conversations@ == before.conversations@.push(doc));
        assert(after.conversations@.drop_last() == before.conversations@);
        lemma_opened(before.open@, id, id);
    }
}

proof fn lemma_opened(open: Seq<Uuid>, id: Uuid, other: Uuid)
    ensures
        lifecycle::opened(open, id).contains(other) <==> open.contains(other) || other == id,
{
    let all = lifecycle::opened(open, id);
    if !open.contains(id) {
        assert(all[open.len() as int] == id);
    }
    if open.contains(other) {
        let i = choose|i: int| 0 <= i < open.len() && open[i] == other;
        assert(all[i] == other);
    }
    if all.contains(other) {
        let i = choose|i: int| 0 <= i < all.len() && all[i] == other;
        if i < open.len() {
            assert(open[i] == other);
        }
    }
}

proof fn lemma_not_listed(list: Seq<Did>, others: Seq<Did>, did: Did)
    ensures
        lifecycle::not_listed(list, others).contains(did) <==> list.contains(did)
            && !others.contains(did),
    decreases list.len(),
{
    reveal(Seq::filter);
    if list.len() > 0 {
        let head = list.drop_last();
        lemma_not_listed(head, others, did);
        let rest = lifecycle::not_listed(head, others);
        let all = lifecycle::not_listed(list, others);
        assert(list[list.len() - 1] == list.last());
        if head.contains(did) {
            let i = choose|i: int| 0 <= i < head.len() && head[i] == did;
            assert(list[i] == did);
        }
        if list.contains(did) && list.last() != did {
            let i = choose|i: int| 0 <= i < list.len() && list[i] == did;
            assert(head[i] == did);
        }
        if rest.contains(did) {
            let i = choose|i: int| 0 <= i < rest.len() && rest[i] == did;
            assert(all[i] == did);
        }
        if !others.contains(list.last()) {
            assert(all[rest.len() as int] == list.last());
        }
        if all.contains(did) && !rest.contains(did) {
            let i = choose|i: int| 0 <= i < all.len() && all[i] == did;
            if i < rest.len() {
                assert(rest[i] == did);
            }
        }
    }
}

/// A group is begun by anyone for others, under no name or one of a proper length. Its members are
/// those asked for who are not blocked, and its creator, whose key it begins with. All of them are
/// told and asked for their keys.
pub proof fn group_begins(
    before: ConversationInner,
    after: ConversationInner,
    r: Result<Created, Error>,
    id: Uuid,
    name: Option<String>,
    recipients: Seq<Did>,
    blocked: Seq<Did>,
    restricted: Seq<Did>,
    permissions: GroupPermissionOpt,
    fresh_key: Vec<u8>,
    did: Did,
)
    requires
        lifecycle::create_group_conversation_post(
            before,
            after,
            r,
            id,
            name,
            recipients,
            blocked,
            restricted,
            permissions,
            fresh_key,
        ),
        forall|i: int|
            0 <= i < before.conversations@.len() ==> (#[trigger] before.conversations@[i]).id != id,
    ensures
        r is Ok <==> {
            &&& !recipients.contains(before.own)
            &&& name matches Some(n) ==> 1 <= text::byte_length(text::trimmed(n@)) <= 255
        },
        r is Err ==> after == before,
        recipients.contains(before.own) ==> r == Err::<Created, Error>(
            Error::CannotCreateConversation,
        ),
        r is Err && !recipients.contains(before.own) ==> r == Err::<Created, Error>(
            Error::InvalidLength {
                context: LengthOf::Name,
                current: text::byte_length(text::trimmed(name->Some_0@)),
                minimum: Some(1),
                maximum: Some(255),
            },
        ),
        r is Ok ==> {
            let doc = after.conversations@.last();
            &&& after.conversations@.len() == before.conversations@.len() + 1
            &&& after.conversations@.drop_last() == before.conversations@
            &&& doc.id == id
            &&& doc.conversation_type is Group
            &&& doc.creator == Some(before.own)
            &&& doc.name == name
            &&& doc.recipients@.last() == before.own
            &&& doc.recipients@.drop_last() == r->Ok_0.tell@
            &&& r->Ok_0.tell@.contains(did) <==> recipients.contains(did) && !blocked.contains(did)
            &&& r->Ok_0.request_keys@ == r->Ok_0.tell@
            &&& r->Ok_0.discover@ == r->Ok_0.tell@
            &&& r->Ok_0.event == RayGunEventKind::ConversationCreated { conversation_id: id }
            &&& doc.restrict@ == restricted
            &&& doc.description is None && doc.icon is None && doc.banner is None
            &&& doc.messages@.len() == 0
            &&& doc.excluded@.len() == 0
            &&& !doc.deleted && !doc.archived && !doc.favorite
            &&& permissions matches GroupPermissionOpt::All(map)
                ==> ordered::permission_entries(doc.permissions) == ordered::permission_entries(map)
            &&& permissions matches GroupPermissionOpt::Single(member, list)
                ==> ordered::permission_entries(doc.permissions) == seq![(member, list@)]
            &&& after.open@.contains(id)
            &&& lifecycle::keystore_of(after.keystores@, id) is Some
            &&& keys::latest_key(
                lifecycle::keystore_of(after.keystores@, id)->Some_0.keys@,
                before.own,
            ) == Some(fresh_key@)
            &&& after.queue == before.queue
        },
{
    if r is Ok {
        let members = lifecycle::not_listed(recipients, blocked);
        let doc = choose|doc: ConversationDocument|
            lifecycle::is_new_group(doc, id, before.own, name, members, restricted, permissions)
                && #[trigger] lifecycle::is_put_in(before, after, doc, fresh_key);
        assert(after.conversations@ == before.conversations@.push(doc));
        assert(after.conversations@.drop_last() == before.conversations@);
        assert(doc.recipients@.drop_last() == members);
        lemma_opened(before.open@, id, id);
        lemma_not_listed(recipients, blocked, did);
        let stored = lifecycle::keystore_of(after.keystores@, id)->Some_0.keys@;
        assert(stored[0].did == before.own);
        latest_key_is_the_last_given(stored, before.own, 0);
    }
}

/// The keystore of a group that is there can be set, and no other changes.
pub proof fn set_keystore_is_found(
    before: ConversationInner,
    after: ConversationInner,
    r: Result<(), Error>,
    id: Uuid,
    keystore: Keystore,
    other: Uuid,
)
    requires
        lifecycle::set_keystore_post(before, after, r, id, keystore),
    ensures
        r is Ok <==> exists|i: int|
            0 <= i < before.conversations@.len() && (#[trigger] before.conversations@[i]).id == id,
        r is Err ==> after == before,
        r is Ok ==> lifecycle::keystore_of(after.keystores@, id) == Some(keystore),
        other != id ==> lifecycle::keystore_of(after.keystores@, other) == lifecycle::keystore_of(
            before.keystores@,
            other,
        ),
        after.conversations == before.conversations,
{
}

/// A conversation that is there and not marked yet is deleted: it goes with its keystore, its place
/// among the open ones and what waited in it for keys. Nothing of the other conversations changes.
pub proof fn deleted_conversation_goes(
    before: ConversationInner,
    after: ConversationInner,
    r: Result<Deleted, Error>,
    id: Uuid,
    broadcast: bool,
    i: int,
    other: Uuid,
)
    requires
        lifecycle::delete_conversation_post(before, after, r, id, broadcast),
        store::distinct_conversations(before.conversations@),
        0 <= i < before.conversations@.len(),
        before.conversations@[i].id == id,
        other != id,
    ensures
        r is Ok <==> !before.conversations@[i].deleted,
        !after.open@.contains(id),
        after.open@.contains(other) <==> before.open@.contains(other),
        lifecycle::keystore_of(after.keystores@, other) == lifecycle::keystore_of(
            before.keystores@,
            other,
        ),
        after.queue == before.queue,
        after.own == before.own,
        after.limits == before.limits,
        r is Ok ==> {
            let doc = before.conversations@[i];
            &&& after.conversations@ == before.conversations@.take(i) + before.conversations@.skip(
                i + 1,
            )
            &&& lifecycle::keystore_of(after.keystores@, id) is None
            &&& r->Ok_0.document.deleted
            &&& r->Ok_0.document.messages@.len() == 0
            &&& r->Ok_0.document == (ConversationDocument {
                deleted: true,
                messages: r->Ok_0.document.messages,
                ..doc
            })
        },
        r is Err ==> after.conversations == before.conversations && r == Err::<Deleted, Error>(
            Error::InvalidConversation,
        ),
{
    conversation_is_found_at_its_place(before.conversations@, id, i);
    let closed = choose|closed: ConversationInner| #[trigger]
        lifecycle::is_closed(before, closed, id) && match lifecycle::delete_refusal(before, id) {
            Some(e) => r == Err::<Deleted, Error>(e) && after == closed,
            None => {
                let doc = before.conversations@[store::conversation_index(
                    before.conversations@,
                    id,
                )];
                &&& lifecycle::is_deleted(closed, after, id)
                &&& r matches Ok(deleted)
                &&& lifecycle::is_marked(doc, deleted.document)
                &&& lifecycle::is_farewell(doc, before.own, broadcast, deleted.farewell)
            },
        };
    assert(after.open == closed.open);
    if before.open@.contains(id) {
        lemma_without_id(before.open@, id, id);
        lemma_without_id(before.open@, id, other);
    }
    if r is Ok {
        assert(before.conversations@.remove(i) == before.conversations@.take(i)
            + before.conversations@.skip(i + 1));
    }
}

proof fn lemma_without_id(list: Seq<Uuid>, id: Uuid, other: Uuid)
    ensures
        lifecycle::without_id(list, id).contains(other) <==> list.contains(other) && other != id,
    decreases list.len(),
{
    reveal(Seq::filter);
    if list.len() > 0 {
        let head = list.drop_last();
        lemma_without_id(head, id, other);
        let rest = lifecycle::without_id(head, id);
        let all = lifecycle::without_id(list, id);
        assert(list[list.len() - 1] == list.last());
        if head.contains(other) {
            let i = choose|i: int| 0 <= i < head.len() && head[i] == other;
            assert(list[i] == other);
        }
        if list.contains(other) && list.last() != other {
            let i = choose|i: int| 0 <= i < list.len() && list[i] == other;
            assert(head[i] == other);
        }
        if rest.contains(other) {
            let i = choose|i: int| 0 <= i < rest.len() && rest[i] == other;
            assert(all[i] == other);
        }
        if list.last() != id {
            assert(all[rest.len() as int] == list.last());
        }
        if all.contains(other) && !rest.contains(other) {
            let i = choose|i: int| 0 <= i < all.len() && all[i] == other;
            if i < rest.len() {
                assert(rest[i] == other);
            }
        }
    }
}

/// Closing a conversation drops what waited in it for keys, and nothing that waits in others.
pub proof fn closed_conversation_waits_for_nothing(
    before: ConversationInner,
    after: ConversationInner,
    id: Uuid,
    i: int,
)
    requires
        lifecycle::is_closed(before, after, id),
        before.open@.contains(id),
    ensures
        forall|j: int|
            0 <= j < after.pending_key_exchange@.len() ==> (
            #[trigger] after.pending_key_exchange@[j]).id != id,
        0 <= i < before.pending_key_exchange@.len() && before.pending_key_exchange@[i].id != id
            ==> after.pending_key_exchange@.contains(before.pending_key_exchange@[i]),
        !after.open@.contains(id),
        after.conversations == before.conversations,
        after.keystores == before.keystores,
{
    lemma_without_id(before.open@, id, id);
    lemma_pending(before.pending_key_exchange@, id, i);
}

proof fn lemma_pending(pending: Seq<PendingList>, id: Uuid, i: int)
    ensures
        forall|j: int|
            0 <= j < lifecycle::without_pending(pending, id).len() ==> (
            #[trigger] lifecycle::without_pending(pending, id)[j]).id != id,
        0 <= i < pending.len() && pending[i].id != id ==> lifecycle::without_pending(
            pending,
            id,
        ).contains(pending[i]),
    decreases pending.len(),
{
    reveal(Seq::filter);
    if pending.len() > 0 {
        let head = pending.drop_last();
        lemma_pending(head, id, i);
        let rest = lifecycle::without_pending(head, id);
        let all = lifecycle::without_pending(pending, id);
        assert forall|j: int| 0 <= j < all.len() implies (#[trigger] all[j]).id != id by {
            if j < rest.len() {
                assert(all[j] == rest[j]);
            }
        }
        if 0 <= i < head.len() && pending[i].id != id {
            assert(head[i] == pending[i]);
            let k = choose|k: int| 0 <= k < rest.len() && rest[k] == pending[i];
            assert(all[k] == pending[i]);
        }
        if i == head.len() && pending[i].id != id {
            assert(all[rest.len() as int] == pending[i]);
        }
    }
}

/// Of a deletion that is told, everyone else who is present learns, by name: the creator tells all
/// members of the group, and a member that goes leaves by telling the others first and the creator
/// last.
pub proof fn deletion_is_told_to_those_present(
    before: ConversationInner,
    after: ConversationInner,
    r: Result<Deleted, Error>,
    id: Uuid,
    broadcast: bool,
    i: int,
    did: Did,
)
    requires
        lifecycle::delete_conversation_post(before, after, r, id, broadcast),
        store::distinct_conversations(before.conversations@),
        0 <= i < before.conversations@.len(),
        before.conversations@[i].id == id,
        !before.conversations@[i].deleted,
    ensures
        r is Ok,
        ({
            let doc = before.conversations@[i];
            let farewell = r->Ok_0.farewell;
            let leaves = broadcast && doc.conversation_type is Group && doc.creator != Some(
                before.own,
            );
            &&& farewell is Err <==> leaves && doc.creator is None
            &&& farewell is Ok ==> {
                let told = farewell->Ok_0;
                &&& told.event == RayGunEventKind::ConversationDeleted { conversation_id: id }
                &&& told.leave is Some <==> leaves
                &&& !broadcast ==> told.tell@.len() == 0
                &&& leaves ==> told.tell@.len() == 0 && Some(told.leave->Some_0.0) == doc.creator
                    && (told.leave->Some_0.1@.contains(did) <==> doc.spec_recipients().contains(did)
                    && did != before.own && Some(did) != doc.creator)
                &&& broadcast && !leaves ==> (told.tell@.contains(did)
                    <==> doc.spec_recipients().contains(did) && did != before.own)
            }
        }),
{
    conversation_is_found_at_its_place(before.conversations@, id, i);
    let doc = before.conversations@[i];
    let others = ids::without(doc.spec_recipients(), before.own);
    ids::without_members(doc.spec_recipients(), before.own, did);
    if doc.creator is Some {
        ids::without_members(others, doc.creator->Some_0, did);
    }
}

/// The conversations that an identity takes part in are those in which it is present.
pub proof fn shared_are_those_with_the_identity(
    conversations: Seq<ConversationDocument>,
    did: Did,
    id: Uuid,
)
    ensures
        identities::shared_with(conversations, did).contains(id) <==> exists|i: int|
            0 <= i < conversations.len() && (#[trigger] conversations[i]).id == id
                && conversations[i].spec_recipients().contains(did),
    decreases conversations.len(),
{
    if conversations.len() > 0 {
        let head = conversations.drop_last();
        let last = conversations.last();
        shared_are_those_with_the_identity(head, did, id);
        let rest = identities::shared_with(head, did);
        let all = identities::shared_with(conversations, did);
        assert(conversations[conversations.len() - 1] == last);
        if rest.contains(id) {
            let k = choose|k: int| 0 <= k < rest.len() && rest[k] == id;
            assert(all[k] == id);
            let i = choose|i: int|
                0 <= i < head.len() && (#[trigger] head[i]).id == id
                    && head[i].spec_recipients().contains(did);
            assert(conversations[i] == head[i]);
        }
        if last.spec_recipients().contains(did) {
            assert(all[rest.len() as int] == last.id);
        }
        if all.contains(id) && !rest.contains(id) {
            let k = choose|k: int| 0 <= k < all.len() && all[k] == id;
            if k < rest.len() {
                assert(rest[k] == id);
            }
        }
        if exists|i: int|
            0 <= i < conversations.len() && (#[trigger] conversations[i]).id == id
                && conversations[i].spec_recipients().contains(did) {
            let i = choose|i: int|
                0 <= i < conversations.len() && (#[trigger] conversations[i]).id == id
                    && conversations[i].spec_recipients().contains(did);
            if i < head.len() {
                assert(head[i] == conversations[i]);
            }
        }
    }
}

/// The groups that are closed to an identity are those of the own identity that keep it out.
pub proof fn closed_are_those_that_keep_out(
    conversations: Seq<ConversationDocument>,
    own: Did,
    did: Did,
    id: Uuid,
)
    ensures
        identities::closed_to(conversations, own, did).contains(id) <==> exists|i: int|
            0 <= i < conversations.len() && (#[trigger] conversations[i]).id == id
                && conversations[i].conversation_type is Group && conversations[i].creator == Some(
                own,
            ) && conversations[i].restrict@.contains(did),
    decreases conversations.len(),
{
    if conversations.len() > 0 {
        let head = conversations.drop_last();
        let last = conversations.last();
        closed_are_those_that_keep_out(head, own, did, id);
        let rest = identities::closed_to(head, own, did);
        let all = identities::closed_to(conversations, own, did);
        assert(conversations[conversations.len() - 1] == last);
        if rest.contains(id) {
            let k = choose|k: int| 0 <= k < rest.len() && rest[k] == id;
            assert(all[k] == id);
            let i = choose|i: int|
                0 <= i < head.len() && (#[trigger] head[i]).id == id
                    && head[i].conversation_type is Group && head[i].creator == Some(own)
                    && head[i].restrict@.contains(did);
            assert(conversations[i] == head[i]);
        }
        if identities::keeps_out(last, own, did) {
            assert(all[rest.len() as int] == last.id);
        }
        if all.contains(id) && !rest.contains(id) {
            let k = choose|k: int| 0 <= k < all.len() && all[k] == id;
            if k < rest.len() {
                assert(rest[k] == id);
            }
        }
        if exists|i: int|
            0 <= i < conversations.len() && (#[trigger] conversations[i]).id == id
                && conversations[i].conversation_type is Group && conversations[i].creator == Some(
                own,
            ) && conversations[i].restrict@.contains(did) {
            let i = choose|i: int|
                0 <= i < conversations.len() && (#[trigger] conversations[i]).id == id
                    && conversations[i].conversation_type is Group && conversations[i].creator
                    == Some(own) && conversations[i].restrict@.contains(did);
            if i < head.len() {
                assert(head[i] == conversations[i]);
            }
        }
    }
}

/// A change among the identities that is no block and no end of one leaves the store as it is.
pub proof fn other_changes_leave_the_store(
    before: ConversationInner,
    after: ConversationInner,
    r: Seq<Measure>,
    event: MultiPassEventKind,
    blocked: bool,
)
    requires
        identities::identity_post(before, after, r, event, blocked),
        !(event is Blocked),
        !(event is BlockedBy),
        !(event is Unblocked),
    ensures
        after == before,
        r.len() == 0,
{
}

/// Who is blocked, or has blocked the own identity, is present in no direct conversation any more that
/// is not deleted, and in no group of the own identity.
pub proof fn blocked_identity_is_nowhere(
    before: ConversationInner,
    after: ConversationInner,
    r: Seq<Measure>,
    did: Did,
    blocked: bool,
    by: bool,
    i: int,
)
    requires
        by ==> identities::identity_post(
            before,
            after,
            r,
            MultiPassEventKind::BlockedBy { did },
            blocked,
        ),
        !by ==> identities::identity_post(
            before,
            after,
            r,
            MultiPassEventKind::Blocked { did },
            blocked,
        ),
        0 <= i < after.conversations@.len(),
        !after.conversations@[i].deleted,
        did != after.own,
        after.conversations@[i].conversation_type is Direct || after.conversations@[i].creator
            == Some(after.own),
    ensures
        !after.conversations@[i].spec_recipients().contains(did),
{
}

/// A direct conversation with an identity that is blocked is deleted, and the other is told.
pub proof fn block_deletes_the_direct_conversation(
    before: ConversationInner,
    after: ConversationInner,
    r: Measure,
    id: Uuid,
    did: Did,
    blocked: bool,
    i: int,
)
    requires
        identities::block_step(before, after, r, id, did, blocked),
        store::distinct_conversations(before.conversations@),
        0 <= i < before.conversations@.len(),
        before.conversations@[i].id == id,
        before.conversations@[i].conversation_type is Direct,
        !before.conversations@[i].deleted,
        did != before.own,
    ensures
        after.conversations@ == before.conversations@.take(i) + before.conversations@.skip(i + 1),
        r matches Measure::Deleted(Ok(deleted)) && deleted.farewell is Ok && (
        before.conversations@[i].spec_recipients().contains(did)
            ==> deleted.farewell->Ok_0.tell@.contains(did)),
{
    conversation_is_found_at_its_place(before.conversations@, id, i);
    assert(r is Deleted);
    let other: Uuid = if id == 0 {
        1
    } else {
        0
    };
    deleted_conversation_goes(before, after, r->Deleted_0, id, true, i, other);
    deletion_is_told_to_those_present(before, after, r->Deleted_0, id, true, i, did);
}

/// An identity that is blocked is taken out of a group of the own identity, and kept out of it.
pub proof fn block_closes_the_own_group(
    before: ConversationInner,
    after: ConversationInner,
    r: Measure,
    id: Uuid,
    did: Did,
    i: int,
    other: Did,
)
    requires
        identities::block_step(before, after, r, id, did, true),
        store::distinct_conversations(before.conversations@),
        0 <= i < before.conversations@.len(),
        before.conversations@[i].id == id,
        before.conversations@[i].conversation_type is Group,
        before.conversations@[i].creator == Some(before.own),
        before.conversations@[i].recipients@.contains(did),
        did != before.own,
        other != did,
    ensures
        !after.conversations@[i].recipients@.contains(did),
        after.conversations@[i].restrict@.contains(did),
        after.conversations@[i].recipients@.contains(other)
            <==> before.conversations@[i].recipients@.contains(other),
        store::only_changed(before, after, i),
{
    conversation_is_found_at_its_place(before.conversations@, id, i);
    let removed = r->removed;
    let restricted = r->restricted;
    let doc = before.conversations@[i];
    let middle = choose|middle: ConversationInner|
        {
            &&& #[trigger] store::only_changed(before, middle, i)
            &&& super::members::remove_participant_post(
                doc,
                middle.conversations@[i],
                removed,
                before.own,
                did,
                true,
            )
            &&& if removed is Ok && true {
                &&& store::only_changed(middle, after, i)
                &&& restricted matches Some(result)
                &&& super::members::add_restricted_post(
                    middle.conversations@[i],
                    after.conversations@[i],
                    result,
                    before.own,
                    did,
                    true,
                )
            } else {
                restricted is None && after == middle
            }
        };
    ids::without_members(doc.recipients@, did, did);
    ids::without_members(doc.recipients@, did, other);
    let list = after.conversations@[i].restrict@;
    assert(list[list.len() - 1] == did);
    assert(after.conversations@ == before.conversations@.update(i, after.conversations@[i]));
}

/// A group of someone else is left as it is, whoever is blocked.
pub proof fn block_leaves_groups_of_others(
    before: ConversationInner,
    after: ConversationInner,
    r: Measure,
    id: Uuid,
    did: Did,
    blocked: bool,
    i: int,
)
    requires
        identities::block_step(before, after, r, id, did, blocked),
        store::distinct_conversations(before.conversations@),
        0 <= i < before.conversations@.len(),
        before.conversations@[i].id == id,
        before.conversations@[i].conversation_type is Group,
        before.conversations@[i].creator != Some(before.own),
    ensures
        after == before,
        r is Passed,
{
    conversation_is_found_at_its_place(before.conversations@, id, i);
}

/// An identity that is no longer blocked is no longer kept out of a group of the own identity.
pub proof fn unblock_opens_the_own_group(
    before: ConversationInner,
    after: ConversationInner,
    r: Measure,
    id: Uuid,
    did: Did,
    i: int,
    other: Did,
)
    requires
        identities::unblock_step(before, after, r, id, did, false),
        store::distinct_conversations(before.conversations@),
        0 <= i < before.conversations@.len(),
        before.conversations@[i].id == id,
        before.conversations@[i].conversation_type is Group,
        before.conversations@[i].creator == Some(before.own),
        did != before.own,
        other != did,
    ensures
        r matches Measure::Unrestricted(Ok(_)),
        !after.conversations@[i].restrict@.contains(did),
        after.conversations@[i].restrict@.contains(other)
            <==> before.conversations@[i].restrict@.contains(other),
        after.conversations@[i].recipients == before.conversations@[i].recipients,
        store::only_changed(before, after, i),
{
    conversation_is_found_at_its_place(before.conversations@, id, i);
    ids::without_members(before.conversations@[i].restrict@, did, did);
    ids::without_members(before.conversations@[i].restrict@, did, other);
}

/// Where the conversations are opened, each of them is open, and none other that was not.
pub proof fn all_conversations_are_opened(
    open: Seq<Uuid>,
    conversations: Seq<ConversationDocument>,
    id: Uuid,
)
    ensures
        lifecycle::all_open(open, conversations).contains(id) <==> open.contains(id) || exists|i: int|
            0 <= i < conversations.len() && (#[trigger] conversations[i]).id == id,
        open.no_duplicates() ==> lifecycle::all_open(open, conversations).no_duplicates(),
    decreases conversations.len(),
{
    if conversations.len() > 0 {
        let rest = conversations.drop_last();
        let last = conversations.last();
        all_conversations_are_opened(open, rest, id);
        let before = lifecycle::all_open(open, rest);
        ordered::set_takes_in(before, last.id, id);
        assert(conversations[conversations.len() - 1] == last);
        if exists|i: int| 0 <= i < rest.len() && (#[trigger] rest[i]).id == id {
            let i = choose|i: int| 0 <= i < rest.len() && (#[trigger] rest[i]).id == id;
            assert(conversations[i].id == id);
        }
        if exists|i: int| 0 <= i < conversations.len() && (#[trigger] conversations[i]).id == id {
            let i = choose|i: int|
                0 <= i < conversations.len() && (#[trigger] conversations[i]).id == id;
            if i < rest.len() {
                assert(rest[i].id == id);
            }
        }
    }
}

/// An update that comes by the topic of one conversation and carries another is kept under the
/// identifier of the one that it carries, where it is kept at all. All else in the store stays.
pub proof fn misplaced_update_is_kept_as_what_it_is(
    before: ConversationInner,
    after: ConversationInner,
    r: Result<Effects, Error>,
    conversation_id: Uuid,
    sender: Did,
    received: ConversationDocument,
    kind: ConversationUpdateKind,
    genuine: bool,
    i: int,
    j: int,
)
    requires
        store::misplaced_post(
            before,
            after,
            r,
            conversation_id,
            sender,
            MessagingEvents::UpdateConversation { conversation: received, kind },
            genuine,
        ),
        store::distinct_conversations(before.conversations@),
        0 <= i < before.conversations@.len(),
        before.conversations@[i].id == conversation_id,
    ensures
        !genuine ==> r is Err,
        r is Err ==> after == before,
        r is Ok && !r->Ok_0.save ==> after == before,
        after == (ConversationInner { conversations: after.conversations, ..before }),
        r is Ok && r->Ok_0.save && 0 <= j < before.conversations@.len() && before.conversations@[j].id
            == received.id ==> {
            &&& after.conversations@.len() == before.conversations@.len()
            &&& after.conversations@[j].id == received.id
            &&& after.conversations@[j].name == received.name
            &&& after.conversations@[j].recipients == received.recipients
            &&& after.conversations@[j].favorite == before.conversations@[i].favorite
            &&& after.conversations@[j].messages@.len() == before.conversations@[i].messages@.len()
        },
        r is Ok && r->Ok_0.save && (forall|k: int|
            0 <= k < before.conversations@.len() ==> (#[trigger] before.conversations@[k]).id
                != received.id) ==> {
            &&& after.conversations@.drop_last() == before.conversations@
            &&& after.conversations@.last().id == received.id
            &&& after.conversations@.last().name == received.name
            &&& after.conversations@.last().recipients == received.recipients
        },
        0 <= j < before.conversations@.len() && before.conversations@[j].id != received.id
            ==> after.conversations@[j] == before.conversations@[j],
{
    conversation_is_found_at_its_place(before.conversations@, conversation_id, i);
    let event = MessagingEvents::UpdateConversation { conversation: received, kind };
    let (copy, updated) = choose|copy: ConversationDocument, updated: ConversationDocument|
        {
            &&& #[trigger] document::same_document(copy, before.conversations@[i])
            &&& #[trigger] incoming::message_event_post(
                copy,
                updated,
                r,
                before.own,
                sender,
                event,
                genuine,
                Keeper::Store,
                before.limits,
            )
            &&& match r {
                Ok(effects) => if effects.save {
                    &&& after.conversations@ == lifecycle::with_conversation(
                        before.conversations@,
                        updated,
                    )
                    &&& after == (ConversationInner {
                        conversations: after.conversations,
                        ..before
                    })
                } else {
                    after == before
                },
                Err(_) => after == before,
            }
        };
    if r is Ok && r->Ok_0.save {
        assert(updated.id == received.id);
        put_conversation_is_there(before.conversations@, updated, j);
        if forall|k: int|
            0 <= k < before.conversations@.len() ==> (#[trigger] before.conversations@[k]).id
                != received.id {
            assert(after.conversations@.drop_last() == before.conversations@);
        } else {
            let k = choose|k: int|
                0 <= k < before.conversations@.len() && (#[trigger] before.conversations@[k]).id
                    == received.id;
            put_conversation_is_there(before.conversations@, updated, k);
        }
    }
}

/// A conversation that is not there is passed over by a block, and cannot be opened again by its end.
pub proof fn absent_conversation_is_passed_over(
    before: ConversationInner,
    after: ConversationInner,
    r: Measure,
    id: Uuid,
    did: Did,
    blocked: bool,
)
    requires
        forall|i: int|
            0 <= i < before.conversations@.len() ==> (#[trigger] before.conversations@[i]).id != id,
    ensures
        identities::block_step(before, after, r, id, did, blocked) ==> r is Passed && after
            == before,
        identities::unblock_step(before, after, r, id, did, blocked) ==> r is Unrestricted
            && r->Unrestricted_0 == Err::<Effects, Error>(Error::InvalidConversation) && after
            == before,
{
}

proof fn lemma_reopened_step(
    before: ConversationInner,
    after: ConversationInner,
    r: Measure,
    id: Uuid,
    did: Did,
)
    requires
        identities::unblock_step(before, after, r, id, did, false),
        store::distinct_conversations(before.conversations@),
        did != before.own,
        exists|i: int|
            0 <= i < before.conversations@.len() && (#[trigger] before.conversations@[i]).id == id
                && before.conversations@[i].conversation_type is Group
                && before.conversations@[i].creator == Some(before.own),
    ensures
        store::distinct_conversations(after.conversations@),
        after.own == before.own,
        after.conversations@.len() == before.conversations@.len(),
        r is Unrestricted,
        forall|j: int|
            0 <= j < before.conversations@.len() ==> {
                let x = before.conversations@[j];
                let y = #[trigger] after.conversations@[j];
                &&& y == (ConversationDocument { restrict: y.restrict, ..x })
                &&& x.id != id ==> y == x
                &&& x.id == id ==> !y.restrict@.contains(did)
                &&& !x.restrict@.contains(did) ==> !y.restrict@.contains(did)
            },
{
    let i = choose|i: int|
        0 <= i < before.conversations@.len() && (#[trigger] before.conversations@[i]).id == id
            && before.conversations@[i].conversation_type is Group
            && before.conversations@[i].creator == Some(before.own);
    conversation_is_found_at_its_place(before.conversations@, id, i);
    ids::without_members(before.conversations@[i].restrict@, did, did);
    assert forall|j: int| 0 <= j < before.conversations@.len() implies {
        let x = before.conversations@[j];
        let y = #[trigger] after.conversations@[j];
        &&& y == (ConversationDocument { restrict: y.restrict, ..x })
        &&& x.id != id ==> y == x
        &&& x.id == id ==> !y.restrict@.contains(did)
        &&& !x.restrict@.contains(did) ==> !y.restrict@.contains(did)
    } by {
        if j != i {
            assert(after.conversations@[j] == before.conversations@[j]);
            assert(before.conversations@[j].id != before.conversations@[i].id);
        }
    }
    assert forall|a: int, b: int| 0 <= a < b < after.conversations@.len() implies (
    #[trigger] after.conversations@[a]).id != (#[trigger] after.conversations@[b]).id by {
        assert(before.conversations@[a].id != before.conversations@[b].id);
    }
}

proof fn lemma_reopened_run(
    states: Seq<ConversationInner>,
    ids: Seq<Uuid>,
    r: Seq<Measure>,
    did: Did,
    k: int,
)
    requires
        identities::is_unblock_run(states, ids, r, did, false),
        store::distinct_conversations(states[0].conversations@),
        did != states[0].own,
        forall|id: Uuid|
            #![trigger ids.contains(id)]
            ids.contains(id) ==> exists|i: int|
                0 <= i < states[0].conversations@.len() && (
                #[trigger] states[0].conversations@[i]).id == id
                    && states[0].conversations@[i].conversation_type is Group
                    && states[0].conversations@[i].creator == Some(states[0].own),
        0 <= k <= ids.len(),
    ensures
        store::distinct_conversations(states[k].conversations@),
        states[k].own == states[0].own,
        states[k].conversations@.len() == states[0].conversations@.len(),
        forall|m: int| 0 <= m < k ==> (#[trigger] r[m]) is Unrestricted,
        forall|j: int|
            0 <= j < states[0].conversations@.len() ==> {
                let x = states[0].conversations@[j];
                let y = #[trigger] states[k].conversations@[j];
                &&& y == (ConversationDocument { restrict: y.restrict, ..x })
                &&& !ids.take(k).contains(x.id) ==> y == x
                &&& ids.take(k).contains(x.id) ==> !y.restrict@.contains(did)
            },
    decreases k,
{
    if k > 0 {
        let n = k - 1;
        lemma_reopened_run(states, ids, r, did, n);
        let id = ids[n];
        assert(identities::unblock_step(states[n], states[n + 1], r[n], id, did, false));
        assert(ids.contains(id));
        let i = choose|i: int|
            0 <= i < states[0].conversations@.len() && (
            #[trigger] states[0].conversations@[i]).id == id
                && states[0].conversations@[i].conversation_type is Group
                && states[0].conversations@[i].creator == Some(states[0].own);
        assert(states[n].conversations@[i].id == id);
        lemma_reopened_step(states[n], states[k], r[n], id, did);
        let taken = ids.take(k);
        assert(taken == ids.take(n).push(id));
        assert(taken[n] == id);
        assert forall|j: int| 0 <= j < states[0].conversations@.len() implies {
            let x = states[0].conversations@[j];
            let y = #[trigger] states[k].conversations@[j];
            &&& y == (ConversationDocument { restrict: y.restrict, ..x })
            &&& !taken.contains(x.id) ==> y == x
            &&& taken.contains(x.id) ==> !y.restrict@.contains(did)
        } by {
            let x = states[0].conversations@[j];
            let z = states[n].conversations@[j];
            assert(z.id == x.id);
            if ids.take(n).contains(x.id) {
                let m = choose|m: int| 0 <= m < n && ids.take(n)[m] == x.id;
                assert(taken[m] == x.id);
            }
            if taken.contains(x.id) && !ids.take(n).contains(x.id) {
                let m = choose|m: int| 0 <= m < taken.len() && taken[m] == x.id;
                if m < n {
                    assert(ids.take(n)[m] == x.id);
                }
                assert(x.id == id);
            }
        }
    }
}

/// An identity that is no longer blocked is kept out of no group of the own identity any more. Nothing else
/// changes in those groups, and nothing at all in the other conversations.
pub proof fn unblocked_identity_is_kept_out_nowhere(
    before: ConversationInner,
    after: ConversationInner,
    r: Seq<Measure>,
    did: Did,
    i: int,
)
    requires
        identities::identity_post(
            before,
            after,
            r,
            MultiPassEventKind::Unblocked { did },
            false,
        ),
        store::distinct_conversations(before.conversations@),
        did != before.own,
    ensures
        after.conversations@.len() == before.conversations@.len(),
        0 <= i < before.conversations@.len() ==> {
            let x = before.conversations@[i];
            let y = after.conversations@[i];
            &&& y == (ConversationDocument { restrict: y.restrict, ..x })
            &&& x.conversation_type is Group && x.creator == Some(before.own)
                ==> !y.restrict@.contains(did)
            &&& !(x.conversation_type is Group && x.creator == Some(before.own)
                && x.restrict@.contains(did)) ==> y == x
        },
        r.len() == identities::closed_to(before.conversations@, before.own, did).len(),
        forall|k: int| 0 <= k < r.len() ==> (#[trigger] r[k]) is Unrestricted,
{
    let ids = identities::closed_to(before.conversations@, before.own, did);
    let states = choose|states: Seq<ConversationInner>|
        {
            &&& #[trigger] identities::is_unblock_run(states, ids, r, did, false)
            &&& states.first() == before
            &&& states.last() == after
        };
    assert forall|id: Uuid| #![trigger ids.contains(id)] ids.contains(id) implies exists|i: int|
        0 <= i < before.conversations@.len() && (#[trigger] before.conversations@[i]).id == id
            && before.conversations@[i].conversation_type is Group
            && before.conversations@[i].creator == Some(before.own) by {
        closed_are_those_that_keep_out(before.conversations@, before.own, did, id);
    }
    lemma_reopened_run(states, ids, r, did, ids.len() as int);
    assert(ids.take(ids.len() as int) == ids);
    assert(states[ids.len() as int] == after);
    if 0 <= i < before.conversations@.len() {
        let x = before.conversations@[i];
        closed_are_those_that_keep_out(before.conversations@, before.own, did, x.id);
        if ids.contains(x.id) {
            let k = choose|k: int|
                0 <= k < before.conversations@.len() && (#[trigger] before.conversations@[k]).id
                    == x.id && before.conversations@[k].conversation_type is Group
                    && before.conversations@[k].creator == Some(before.own)
                    && before.conversations@[k].restrict@.contains(did);
            if k != i {
                assert(before.conversations@[k].id != before.conversations@[i].id);
            }
        }
        assert(after.conversations@[i] == states[ids.len() as int].conversations@[i]);
    }
}

proof fn lemma_block_keeps(
    before: ConversationInner,
    after: ConversationInner,
    r: Measure,
    id: Uuid,
    did: Did,
    blocked: bool,
    doc: ConversationDocument,
)
    requires
        identities::block_step(before, after, r, id, did, blocked),
        store::distinct_conversations(before.conversations@),
    ensures
        store::distinct_conversations(after.conversations@),
        after.own == before.own,
        doc.id != id && before.conversations@.contains(doc) ==> after.conversations@.contains(doc),
{
    let list = before.conversations@;
    if store::has_conversation(list, id) {
        store::lemma_has_conversation(list, id);
        let i = store::conversation_index(list, id);
        if list[i].conversation_type is Direct {
            if lifecycle::delete_refusal(before, id) is None {
                assert(after.conversations@ == list.remove(i));
                assert forall|a: int, b: int| 0 <= a < b < after.conversations@.len() implies (
                #[trigger] after.conversations@[a]).id != (
                #[trigger] after.conversations@[b]).id by {
                    let x = if a < i {
                        a
                    } else {
                        a + 1
                    };
                    let y = if b < i {
                        b
                    } else {
                        b + 1
                    };
                    assert(list[x].id != list[y].id);
                }
                if doc.id != id && list.contains(doc) {
                    let k = choose|k: int| 0 <= k < list.len() && list[k] == doc;
                    let m = if k < i {
                        k
                    } else {
                        k - 1
                    };
                    assert(after.conversations@[m] == doc);
                }
            }
        } else if list[i].creator == Some(before.own) {
            let removed = r->removed;
            let restricted = r->restricted;
            let middle = choose|middle: ConversationInner|
                {
                    &&& #[trigger] store::only_changed(before, middle, i)
                    &&& super::members::remove_participant_post(
                        list[i],
                        middle.conversations@[i],
                        removed,
                        before.own,
                        did,
                        true,
                    )
                    &&& if removed is Ok && blocked {
                        &&& store::only_changed(middle, after, i)
                        &&& restricted matches Some(result)
                        &&& super::members::add_restricted_post(
                            middle.conversations@[i],
                            after.conversations@[i],
                            result,
                            before.own,
                            did,
                            blocked,
                        )
                    } else {
                        restricted is None && after == middle
                    }
                };
            assert(after.conversations@ == list.update(i, after.conversations@[i]));
            assert(after.conversations@[i].id == id);
            assert forall|a: int, b: int| 0 <= a < b < after.conversations@.len() implies (
            #[trigger] after.conversations@[a]).id != (#[trigger] after.conversations@[b]).id by {
                assert(list[a].id != list[b].id);
            }
            if doc.id != id && list.contains(doc) {
                let k = choose|k: int| 0 <= k < list.len() && list[k] == doc;
                assert(after.conversations@[k] == doc);
            }
        }
    }
}

proof fn lemma_block_run_keeps(
    states: Seq<ConversationInner>,
    ids: Seq<Uuid>,
    r: Seq<Measure>,
    did: Did,
    blocked: bool,
    doc: ConversationDocument,
    k: int,
)
    requires
        identities::is_block_run(states, ids, r, did, blocked),
        store::distinct_conversations(states[0].conversations@),
        states[0].conversations@.contains(doc),
        !ids.contains(doc.id),
        0 <= k <= ids.len(),
    ensures
        store::distinct_conversations(states[k].conversations@),
        states[k].conversations@.contains(doc),
    decreases k,
{
    if k > 0 {
        let n = k - 1;
        lemma_block_run_keeps(states, ids, r, did, blocked, doc, n);
        assert(identities::block_step(states[n], states[n + 1], r[n], ids[n], did, blocked));
        assert(ids.contains(ids[n]));
        lemma_block_keeps(states[n], states[k], r[n], ids[n], did, blocked, doc);
    }
}

/// A block of an identity leaves every conversation as it is in which the identity is not present, and
/// is carried out in each in which it is.
pub proof fn block_leaves_conversations_without_the_identity(
    before: ConversationInner,
    after: ConversationInner,
    r: Seq<Measure>,
    did: Did,
    blocked: bool,
    by: bool,
    i: int,
)
    requires
        by ==> identities::identity_post(
            before,
            after,
            r,
            MultiPassEventKind::BlockedBy { did },
            blocked,
        ),
        !by ==> identities::identity_post(
            before,
            after,
            r,
            MultiPassEventKind::Blocked { did },
            blocked,
        ),
        store::distinct_conversations(before.conversations@),
    ensures
        0 <= i < before.conversations@.len()
            && !before.conversations@[i].spec_recipients().contains(did)
            ==> after.conversations@.contains(before.conversations@[i]),
        r.len() == identities::shared_with(before.conversations@, did).len(),
{
    let ids = identities::shared_with(before.conversations@, did);
    let states = choose|states: Seq<ConversationInner>|
        {
            &&& #[trigger] identities::is_block_run(states, ids, r, did, blocked)
            &&& states.first() == before
            &&& states.last() == after
        };
    if 0 <= i < before.conversations@.len()
        && !before.conversations@[i].spec_recipients().contains(did) {
        let doc = before.conversations@[i];
        shared_are_those_with_the_identity(before.conversations@, did, doc.id);
        if ids.contains(doc.id) {
            let k = choose|k: int|
                0 <= k < before.conversations@.len() && (#[trigger] before.conversations@[k]).id
                    == doc.id && before.conversations@[k].spec_recipients().contains(did);
            assert(before.conversations@[k].id == before.conversations@[i].id);
        }
        lemma_block_run_keeps(states, ids, r, did, blocked, doc, ids.len() as int);
    }
}

/// An update is misplaced where the conversation that it carries has another identifier than the one
/// it came for. What carries no conversation is never misplaced.
pub proof fn update_belongs_to_its_conversation(event: MessagingEvents, id: Uuid)
    ensures
        event is UpdateConversation && event->conversation.id == id ==> !store::is_misplaced(
            event,
            id,
        ),
        event is UpdateConversation && event->conversation.id != id ==> store::is_misplaced(
            event,
            id,
        ),
        !(event is UpdateConversation) ==> !store::is_misplaced(event, id),
{
}

} // verus!
