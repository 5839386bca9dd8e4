//! How conversations come and go.
use vstd::prelude::*;
use crate::error::{Error, LengthOf};
use crate::ids::{self, contains_did, copy_dids, without_did, Did, Uuid};
use crate::ordered::{self, permissions_insert, permissions_new};
use crate::text::{self, trim};
use super::document::{self, ConversationDocument};
use super::info::MAX_NAME;
use super::keys::{KeyEntry, Keystore};
use super::members::{self, GroupPermissionOpt};
use super::queue::Queue;
use super::store::{self, ConversationInner, PendingList, StoredKeystore};
use super::{ConversationType, RayGunEventKind};

verus! {

/// The conversations with one more, which takes the place of one with its identifier.
pub open spec fn with_conversation(
    conversations: Seq<ConversationDocument>,
    doc: ConversationDocument,
) -> Seq<ConversationDocument> {
    if store::has_conversation(conversations, doc.id) {
        conversations.update(store::conversation_index(conversations, doc.id), doc)
    } else {
        conversations.push(doc)
    }
}

/// The keystore of a group.
pub open spec fn keystore_of(keystores: Seq<StoredKeystore>, id: Uuid) -> Option<Keystore>
    decreases keystores.len(),
{
    if keystores.len() == 0 {
        None
    } else if keystores.last().id == id {
        Some(keystores.last().keystore)
    } else {
        keystore_of(keystores.drop_last(), id)
    }
}

/// The keystores of all groups but one are as before.
pub open spec fn same_keystores_but(
    before: Seq<StoredKeystore>,
    after: Seq<StoredKeystore>,
    id: Uuid,
) -> bool {
    forall|other: Uuid|
        other != id ==> #[trigger] keystore_of(after, other) == keystore_of(before, other)
}

/// A new conversation of two.
pub open spec fn is_new_direct(doc: ConversationDocument, id: Uuid, own: Did, other: Did) -> bool {
    &&& doc.id == id
    &&& doc.name is None
    &&& doc.description is None
    &&& doc.creator is None
    &&& doc.conversation_type is Direct
    &&& !doc.favorite
    &&& !doc.archived
    &&& !doc.deleted
    &&& doc.icon is None
    &&& doc.banner is None
    &&& ordered::permission_entries(doc.permissions).len() == 0
    &&& doc.recipients@ == seq![own, other]
    &&& doc.excluded@.len() == 0
    &&& doc.restrict@.len() == 0
    &&& doc.messages@.len() == 0
}

/// The permissions that a new group begins with.
pub open spec fn initial_permissions(
    permissions: GroupPermissionOpt,
) -> members::Permissions {
    match permissions {
        GroupPermissionOpt::All(map) => ordered::permission_entries(map),
        GroupPermissionOpt::Single(did, list) => seq![(did, list@)],
    }
}

/// A new group.
pub open spec fn is_new_group(
    doc: ConversationDocument,
    id: Uuid,
    own: Did,
    name: Option<String>,
    recipients: Seq<Did>,
    restricted: Seq<Did>,
    permissions: GroupPermissionOpt,
) -> bool {
    &&& doc.id == id
    &&& doc.name == name
    &&& doc.description is None
    &&& doc.creator == Some(own)
    &&& doc.conversation_type is Group
    &&& !doc.favorite
    &&& !doc.archived
    &&& !doc.deleted
    &&& doc.icon is None
    &&& doc.banner is None
    &&& ordered::permission_entries(doc.permissions) == initial_permissions(permissions)
    &&& doc.recipients@ == recipients.push(own)
    &&& doc.excluded@.len() == 0
    &&& doc.restrict@ == restricted
    &&& doc.messages@.len() == 0
}

/// Whether a conversation is a direct one with these two in it.
pub open spec fn is_direct_with(doc: ConversationDocument, own: Did, other: Did) -> bool {
    &&& doc.conversation_type is Direct
    &&& doc.spec_recipients().contains(other)
    &&& doc.spec_recipients().contains(own)
}

/// The first direct conversation with an identity.
pub open spec fn first_direct(
    conversations: Seq<ConversationDocument>,
    own: Did,
    other: Did,
) -> Option<Uuid>
    decreases conversations.len(),
{
    if conversations.len() == 0 {
        None
    } else if is_direct_with(conversations[0], own, other) {
        Some(conversations[0].id)
    } else {
        first_direct(conversations.drop_first(), own, other)
    }
}

/// Why no direct conversation is made.
pub open spec fn create_refusal(
    inner: ConversationInner,
    other: Did,
    blocked: bool,
) -> Option<Error> {
    if blocked {
        Some(Error::PublicKeyIsBlocked)
    } else if other == inner.own {
        Some(Error::CannotCreateConversation)
    } else {
        match first_direct(inner.conversations@, inner.own, other) {
            Some(conversation_id) => Some(Error::ConversationExist { conversation_id }),
            None => None,
        }
    }
}

/// Why no group is made.
pub open spec fn create_group_refusal(
    own: Did,
    name: Option<String>,
    recipients: Seq<Did>,
) -> Option<Error> {
    if recipients.contains(own) {
        Some(Error::CannotCreateConversation)
    } else {
        match name {
            Some(n) => {
                let length = text::byte_length(text::trimmed(n@));
                if length == 0 || length > MAX_NAME {
                    Some(
                        Error::InvalidLength {
                            context: LengthOf::Name,
                            current: length,
                            minimum: Some(1),
                            maximum: Some(MAX_NAME),
                        },
                    )
                } else {
                    None
                }
            },
            None => None,
        }
    }
}

/// The identities of a list that are not on another list.
pub open spec fn not_listed(list: Seq<Did>, others: Seq<Did>) -> Seq<Did> {
    list.filter(|d: Did| !others.contains(d))
}

/// What is left to do after a conversation was made.
pub struct Created {
    /// The subscribers of the store are told.
    pub event: RayGunEventKind,
    /// These are looked for in the network, where they are not known there yet.
    pub discover: Vec<Did>,
    /// These are told of the conversation.
    pub tell: Vec<Did>,
    /// These are asked for their keys.
    pub request_keys: Vec<Did>,
}

/// What is left to do after a conversation was deleted.
pub struct Farewell {
    /// The subscribers of the store are told.
    pub event: RayGunEventKind,
    /// The group is left: its creator is told last, after these members.
    pub leave: Option<(Did, Vec<Did>)>,
    /// These are told that the conversation is deleted.
    pub tell: Vec<Did>,
}

/// A deleted conversation.
pub struct Deleted {
    /// The document with the mark of deletion, to be stored in place of the one before.
    pub document: ConversationDocument,
    pub farewell: Result<Farewell, Error>,
}

fn remove_from(list: &Vec<Did>, others: &Vec<Did>) -> (r: Vec<Did>)
    ensures
        r@ == not_listed(list@, others@),
{
    let mut r: Vec<Did> = Vec::new();
    let mut i: usize = 0;
    proof {
        reveal(Seq::filter);
        assert(list@.take(0) == Seq::<Did>::empty());
    }
    while i < list.len()
        invariant
            i <= list@.len(),
            r@ == not_listed(list@.take(i as int), others@),
        decreases list@.len() - i,
    {
        proof {
            reveal(Seq::filter);
            assert(list@.take(i + 1).drop_last() == list@.take(i as int));
            assert(list@.take(i + 1).last() == list@[i as int]);
        }
        if !contains_did(others, list[i]) {
            r.push(list[i]);
        }
        i = i + 1;
    }
    assert(list@.take(list@.len() as int) == list@);
    r
}

/// The identifiers of open conversations with one more.
pub open spec fn opened(open: Seq<Uuid>, id: Uuid) -> Seq<Uuid> {
    if open.contains(id) {
        open
    } else {
        open.push(id)
    }
}

/// The open conversations, once others were opened in order.
pub open spec fn all_open(
    open: Seq<Uuid>,
    conversations: Seq<ConversationDocument>,
) -> Seq<Uuid>
    decreases conversations.len(),
{
    if conversations.len() == 0 {
        open
    } else {
        opened(all_open(open, conversations.drop_last()), conversations.last().id)
    }
}

/// The list without one identifier.
pub open spec fn without_id(list: Seq<Uuid>, id: Uuid) -> Seq<Uuid> {
    list.filter(|x: Uuid| x != id)
}

/// The payloads that wait in all conversations but one.
pub open spec fn without_pending(pending: Seq<PendingList>, id: Uuid) -> Seq<PendingList> {
    pending.filter(|p: PendingList| p.id != id)
}

/// The store after a conversation was closed.
pub open spec fn is_closed(
    before: ConversationInner,
    after: ConversationInner,
    id: Uuid,
) -> bool {
    &&& after == (ConversationInner {
        open: after.open,
        pending_key_exchange: after.pending_key_exchange,
        ..before
    })
    &&& if before.open@.contains(id) {
        &&& after.open@ == without_id(before.open@, id)
        &&& after.pending_key_exchange@ == without_pending(before.pending_key_exchange@, id)
    } else {
        after == before
    }
}

/// Why a conversation is not deleted.
pub open spec fn delete_refusal(inner: ConversationInner, id: Uuid) -> Option<Error> {
    if !store::has_conversation(inner.conversations@, id) || inner.conversations@[
        store::conversation_index(inner.conversations@, id)
    ].deleted {
        Some(Error::InvalidConversation)
    } else {
        None
    }
}

/// A conversation with the mark of deletion, and without its messages.
pub open spec fn is_marked(before: ConversationDocument, after: ConversationDocument) -> bool {
    &&& after == (ConversationDocument { messages: after.messages, deleted: true, ..before })
    &&& after.messages@.len() == 0
}

/// The store after a conversation and its keystore were taken out.
pub open spec fn is_deleted(
    before: ConversationInner,
    after: ConversationInner,
    id: Uuid,
) -> bool {
    &&& after == (ConversationInner {
        conversations: after.conversations,
        keystores: after.keystores,
        ..before
    })
    &&& after.conversations@ == before.conversations@.remove(
        store::conversation_index(before.conversations@, id),
    )
    &&& keystore_of(after.keystores@, id) is None
    &&& same_keystores_but(before.keystores@, after.keystores@, id)
}

/// The others in a conversation are told of its deletion, or a group of someone else is left.
pub open spec fn is_farewell(
    doc: ConversationDocument,
    own: Did,
    broadcast: bool,
    r: Result<Farewell, Error>,
) -> bool {
    if broadcast && doc.conversation_type is Group && doc.creator is None {
        r == Err::<Farewell, Error>(Error::InvalidConversation)
    } else {
        &&& r matches Ok(farewell)
        &&& farewell.event == RayGunEventKind::ConversationDeleted { conversation_id: doc.id }
        &&& if broadcast && doc.conversation_type is Group && doc.creator != Some(own) {
            &&& farewell.leave matches Some((creator, others))
            &&& doc.creator == Some(creator)
            &&& others@ == ids::without(ids::without(doc.spec_recipients(), own), creator)
            &&& farewell.tell@.len() == 0
        } else {
            &&& farewell.leave is None
            &&& farewell.tell@ == (if broadcast {
                ids::without(doc.spec_recipients(), own)
            } else {
                Seq::empty()
            })
        }
    }
}

/// What `ConversationInner::delete_conversation` does.
pub open spec fn delete_conversation_post(
    before: ConversationInner,
    after: ConversationInner,
    r: Result<Deleted, Error>,
    id: Uuid,
    broadcast: bool,
) -> bool {
    exists|closed: ConversationInner| #[trigger]
        is_closed(before, closed, id) && match delete_refusal(before, id) {
            Some(e) => r == Err::<Deleted, Error>(e) && after == closed,
            None => {
                let doc = before.conversations@[store::conversation_index(
                    before.conversations@,
                    id,
                )];
                &&& is_deleted(closed, after, id)
                &&& r matches Ok(deleted)
                &&& is_marked(doc, deleted.document)
                &&& is_farewell(doc, before.own, broadcast, deleted.farewell)
            },
        }
}

/// What `ConversationInner::create_conversation` does.
pub open spec fn create_conversation_post(
    before: ConversationInner,
    after: ConversationInner,
    r: Result<Created, Error>,
    other: Did,
    blocked: bool,
    id: Uuid,
) -> bool {
    match create_refusal(before, other, blocked) {
        Some(e) => r == Err::<Created, Error>(e) && after == before,
        None => {
            &&& is_opened_direct(before, after, id, other)
            &&& r matches Ok(created)
            &&& created.event == RayGunEventKind::ConversationCreated { conversation_id: id }
            &&& created.discover@ == seq![other]
            &&& created.tell@ == seq![other]
            &&& created.request_keys@.len() == 0
        },
    }
}

/// What `ConversationInner::create_group_conversation` does.
pub open spec fn create_group_conversation_post(
    before: ConversationInner,
    after: ConversationInner,
    r: Result<Created, Error>,
    id: Uuid,
    name: Option<String>,
    recipients: Seq<Did>,
    blocked: Seq<Did>,
    restricted: Seq<Did>,
    permissions: GroupPermissionOpt,
    fresh_key: Vec<u8>,
) -> bool {
    match create_group_refusal(before.own, name, recipients) {
        Some(e) => r == Err::<Created, Error>(e) && after == before,
        None => {
            let members = not_listed(recipients, blocked);
            &&& is_opened_group(
                before,
                after,
                id,
                name,
                members,
                restricted,
                permissions,
                fresh_key,
            )
            &&& r matches Ok(created)
            &&& created.event == RayGunEventKind::ConversationCreated { conversation_id: id }
            &&& created.discover@ == members
            &&& created.tell@ == members
            &&& created.request_keys@ == members
        },
    }
}

/// What `ConversationInner::set_keystore` does.
pub open spec fn set_keystore_post(
    before: ConversationInner,
    after: ConversationInner,
    r: Result<(), Error>,
    id: Uuid,
    keystore: Keystore,
) -> bool {
    if store::has_conversation(before.conversations@, id) {
        &&& r is Ok
        &&& after == (ConversationInner { keystores: after.keystores, ..before })
        &&& keystore_of(after.keystores@, id) == Some(keystore)
        &&& same_keystores_but(before.keystores@, after.keystores@, id)
    } else {
        r == Err::<(), Error>(Error::InvalidConversation) && after == before
    }
}

impl ConversationInner {
    /// Puts a conversation in, in the place of one with its identifier.
    pub fn set_document(&mut self, doc: ConversationDocument)
        ensures
            final(self).conversations@ == with_conversation(old(self).conversations@, doc),
            *final(self) == (ConversationInner {
                conversations: final(self).conversations,
                ..*old(self)
            }),
            old(self).well_formed() && doc.well_formed() ==> final(self).well_formed(),
    {
        match self.position(doc.id) {
            Some(i) => {
                self.conversations[i] = doc;
            },
            None => {
                let ghost before = self.conversations@;
                self.conversations.push(doc);
                assert forall|i: int| 0 <= i < before.len() implies (
                #[trigger] before[i]).id != doc.id by {
                    if before[i].id == doc.id {
                        assert(store::has_conversation(before, doc.id));
                    }
                }
            },
        }
    }

    /// Takes the keystore of a group out.
    pub fn remove_keystore(&mut self, id: Uuid)
        ensures
            *final(self) == (ConversationInner { keystores: final(self).keystores, ..*old(self) }),
            keystore_of(final(self).keystores@, id) is None,
            same_keystores_but(old(self).keystores@, final(self).keystores@, id),
    {
        let ghost all = self.keystores@;
        let mut rest: Vec<StoredKeystore> = Vec::new();
        core::mem::swap(&mut self.keystores, &mut rest);
        let n: usize = rest.len();
        let mut k: usize = 0;
        assert(all.skip(0) == all);
        assert(all.take(0) == Seq::<StoredKeystore>::empty());
        while k < n
            invariant
                n == all.len(),
                k <= n,
                rest@ == all.skip(k as int),
                *self == (ConversationInner { keystores: self.keystores, ..*old(self) }),
                keystore_of(self.keystores@, id) is None,
                same_keystores_but(all.take(k as int), self.keystores@, id),
            decreases n - k,
        {
            assert(rest@[0] == all[k as int]);
            let entry = rest.remove(0);
            assert(rest@ == all.skip(k + 1));
            let ghost before = self.keystores@;
            assert(all.take(k + 1).drop_last() == all.take(k as int));
            assert(all.take(k + 1).last() == entry);
            if entry.id != id {
                self.keystores.push(entry);
                assert(self.keystores@.drop_last() == before);
            }
            assert forall|other: Uuid| other != id implies #[trigger] keystore_of(
                self.keystores@,
                other,
            ) == keystore_of(all.take(k + 1), other) by {
                assert(keystore_of(before, other) == keystore_of(all.take(k as int), other));
            }
            k = k + 1;
        }
        assert(all.take(all.len() as int) == all);
    }

    /// Sets the keystore of a group.
    pub fn set_keystore(&mut self, id: Uuid, keystore: Keystore) -> (r: Result<(), Error>)
        ensures
            set_keystore_post(*old(self), *final(self), r, id, keystore),
    {
        if !self.contains(id) {
            return Err(Error::InvalidConversation);
        }
        self.remove_keystore(id);
        let ghost before = self.keystores@;
        self.keystores.push(StoredKeystore { id, keystore });
        assert(self.keystores@.drop_last() == before);
        assert forall|other: Uuid| other != id implies #[trigger] keystore_of(
            self.keystores@,
            other,
        ) == keystore_of(old(self).keystores@, other) by {
            assert(keystore_of(before, other) == keystore_of(old(self).keystores@, other));
        }
        Ok(())
    }

    /// Opens a conversation.
    pub fn create_conversation_task(&mut self, id: Uuid)
        ensures
            *final(self) == (ConversationInner { open: final(self).open, ..*old(self) }),
            final(self).open@ == opened(old(self).open@, id),
    {
        if !self.is_open(id) {
            self.open.push(id);
        }
    }

    /// Opens all conversations, and takes up the queue that was stored, where there is one.
    pub fn load_conversations(&mut self, queue: Option<Queue>)
        requires
            queue matches Some(q) ==> q.well_formed(),
        ensures
            *final(self) == (ConversationInner {
                open: final(self).open,
                queue: match queue {
                    Some(q) => q,
                    None => old(self).queue,
                },
                ..*old(self)
            }),
            final(self).open@ == all_open(old(self).open@, old(self).conversations@),
            old(self).well_formed() ==> final(self).well_formed(),
    {
        let ghost before = *self;
        let mut i: usize = 0;
        assert(before.conversations@.take(0) == Seq::<ConversationDocument>::empty());
        while i < self.conversations.len()
            invariant
                i <= before.conversations@.len(),
                *self == (ConversationInner { open: self.open, ..before }),
                self.open@ == all_open(before.open@, before.conversations@.take(i as int)),
            decreases before.conversations@.len() - i,
        {
            proof {
                let taken = before.conversations@.take(i + 1);
                assert(taken.drop_last() == before.conversations@.take(i as int));
                assert(taken.last() == before.conversations@[i as int]);
            }
            let id: Uuid = self.conversations[i].id;
            self.create_conversation_task(id);
            i = i + 1;
        }
        assert(before.conversations@.take(i as int) == before.conversations@);
        match queue {
            Some(q) => {
                self.queue = q;
            },
            None => {},
        }
    }

    /// Whether a conversation is open.
    pub fn is_open(&self, id: Uuid) -> (r: bool)
        ensures
            r == self.open@.contains(id),
    {
        let mut i: usize = 0;
        while i < self.open.len()
            invariant
                i <= self.open@.len(),
                forall|j: int| 0 <= j < i ==> self.open@[j] != id,
            decreases self.open@.len() - i,
        {
            if self.open[i] == id {
                assert(self.open@[i as int] == id);
                return true;
            }
            i = i + 1;
        }
        false
    }

    /// Closes a conversation. What waited in it for keys is dropped.
    pub fn destroy_conversation(&mut self, id: Uuid)
        ensures
            is_closed(*old(self), *final(self), id),
    {
        if !self.is_open(id) {
            return;
        }
        let ghost all = self.open@;
        let mut open: Vec<Uuid> = Vec::new();
        let mut i: usize = 0;
        proof {
            reveal(Seq::filter);
            assert(all.take(0) == Seq::<Uuid>::empty());
        }
        while i < self.open.len()
            invariant
                all == self.open@,
                *self == *old(self),
                i <= all.len(),
                open@ == without_id(all.take(i as int), id),
            decreases all.len() - i,
        {
            proof {
                reveal(Seq::filter);
                assert(all.take(i + 1).drop_last() == all.take(i as int));
                assert(all.take(i + 1).last() == all[i as int]);
            }
            if self.open[i] != id {
                open.push(self.open[i]);
            }
            i = i + 1;
        }
        assert(all.take(all.len() as int) == all);
        self.open = open;
        let ghost waiting = self.pending_key_exchange@;
        let mut kept: Vec<PendingList> = Vec::new();
        let mut rest: Vec<PendingList> = Vec::new();
        core::mem::swap(&mut self.pending_key_exchange, &mut rest);
        let n: usize = rest.len();
        let mut k: usize = 0;
        proof {
            reveal(Seq::filter);
            assert(waiting.skip(0) == waiting);
            assert(waiting.take(0) == Seq::<PendingList>::empty());
        }
        while k < n
            invariant
                n == waiting.len(),
                k <= n,
                rest@ == waiting.skip(k as int),
                kept@ == without_pending(waiting.take(k as int), id),
            decreases n - k,
        {
            proof {
                reveal(Seq::filter);
                assert(waiting.take(k + 1).drop_last() == waiting.take(k as int));
                assert(waiting.take(k + 1).last() == waiting[k as int]);
                assert(rest@[0] == waiting[k as int]);
            }
            let entry = rest.remove(0);
            assert(rest@ == waiting.skip(k + 1));
            if entry.id != id {
                kept.push(entry);
            }
            k = k + 1;
        }
        assert(waiting.take(waiting.len() as int) == waiting);
        self.pending_key_exchange = kept;
    }

    fn find_direct(&self, other: Did) -> (r: Option<Uuid>)
        ensures
            r == first_direct(self.conversations@, self.own, other),
    {
        let ghost all = self.conversations@;
        let mut i: usize = 0;
        assert(all.skip(0) == all);
        while i < self.conversations.len()
            invariant
                all == self.conversations@,
                i <= all.len(),
                first_direct(all.skip(i as int), self.own, other) == first_direct(
                    all,
                    self.own,
                    other,
                ),
            decreases all.len() - i,
        {
            assert(all.skip(i as int)[0] == all[i as int]);
            assert(all.skip(i as int).drop_first() == all.skip(i + 1));
            let doc = &self.conversations[i];
            if doc.conversation_type == ConversationType::Direct {
                let recipients = doc.recipients();
                if contains_did(&recipients, other) && contains_did(&recipients, self.own) {
                    return Some(doc.id);
                }
            }
            i = i + 1;
        }
        None
    }

    /// A new conversation of two.
    fn new_direct(&self, id: Uuid, other: Did) -> (r: ConversationDocument)
        ensures
            is_new_direct(r, id, self.own, other),
    {
        let mut recipients: Vec<Did> = Vec::new();
        recipients.push(self.own);
        recipients.push(other);
        assert(recipients@ == seq![self.own, other]);
        ConversationDocument {
            id,
            name: None,
            description: None,
            creator: None,
            conversation_type: ConversationType::Direct,
            favorite: false,
            archived: false,
            deleted: false,
            icon: None,
            banner: None,
            permissions: permissions_new(),
            recipients,
            excluded: Vec::new(),
            restrict: Vec::new(),
            messages: Vec::new(),
        }
    }

    /// Puts a new conversation of two in and opens it.
    pub(crate) fn open_direct(&mut self, id: Uuid, other: Did)
        ensures
            is_opened_direct(*old(self), *final(self), id, other),
            old(self).well_formed() ==> final(self).well_formed(),
    {
        let doc = self.new_direct(id, other);
        self.set_document(doc);
        self.create_conversation_task(id);
        assert(is_new_direct(doc, id, old(self).own, other) && self.conversations@
            == with_conversation(old(self).conversations@, doc));
    }

    /// Begins a conversation with one identity. `blocked` says whether the own identity has
    /// blocked it; `id` is the identifier that the two share.
    pub fn create_conversation(&mut self, other: Did, blocked: bool, id: Uuid) -> (r: Result<
        Created,
        Error,
    >)
        ensures
            create_conversation_post(*old(self), *final(self), r, other, blocked, id),
            old(self).well_formed() ==> final(self).well_formed(),
    {
        if blocked {
            return Err(Error::PublicKeyIsBlocked);
        }
        if other == self.own {
            return Err(Error::CannotCreateConversation);
        }
        match self.find_direct(other) {
            Some(conversation_id) => return Err(Error::ConversationExist { conversation_id }),
            None => {},
        }
        self.open_direct(id, other);
        let mut discover: Vec<Did> = Vec::new();
        discover.push(other);
        let mut tell: Vec<Did> = Vec::new();
        tell.push(other);
        assert(discover@ == seq![other] && tell@ == seq![other]);
        Ok(
            Created {
                event: RayGunEventKind::ConversationCreated { conversation_id: id },
                discover,
                tell,
                request_keys: Vec::new(),
            },
        )
    }

    /// Begins a group. Those of `recipients` who are on `blocked`, because one side has blocked
    /// the other, are left out; those of `restricted` are kept out from the start.
    pub fn create_group_conversation(
        &mut self,
        id: Uuid,
        name: Option<String>,
        recipients: &Vec<Did>,
        blocked: &Vec<Did>,
        restricted: Vec<Did>,
        permissions: GroupPermissionOpt,
        fresh_key: Vec<u8>,
    ) -> (r: Result<Created, Error>)
        ensures
            create_group_conversation_post(
                *old(self),
                *final(self),
                r,
                id,
                name,
                recipients@,
                blocked@,
                restricted@,
                permissions,
                fresh_key,
            ),
            old(self).well_formed() ==> final(self).well_formed(),
    {
        if contains_did(recipients, self.own) {
            return Err(Error::CannotCreateConversation);
        }
        match &name {
            Some(n) => {
                let length: usize = trim(n.as_str()).len();
                if length == 0 || length > MAX_NAME {
                    return Err(
                        Error::InvalidLength {
                            context: LengthOf::Name,
                            current: length,
                            minimum: Some(1),
                            maximum: Some(MAX_NAME),
                        },
                    );
                }
            },
            None => {},
        }
        let members = remove_from(recipients, blocked);
        let mut all = copy_dids(&members);
        all.push(self.own);
        let map = match permissions {
            GroupPermissionOpt::All(map) => map,
            GroupPermissionOpt::Single(did, list) => {
                let mut map = permissions_new();
                permissions_insert(&mut map, did, list);
                assert(ordered::permission_entries(map) == seq![(did, list@)]);
                map
            },
        };
        let doc = ConversationDocument {
            id,
            name,
            description: None,
            creator: Some(self.own),
            conversation_type: ConversationType::Group,
            favorite: false,
            archived: false,
            deleted: false,
            icon: None,
            banner: None,
            permissions: map,
            recipients: all,
            excluded: Vec::new(),
            restrict: restricted,
            messages: Vec::new(),
        };
        assert(is_new_group(
            doc,
            id,
            self.own,
            name,
            members@,
            restricted@,
            permissions,
        ));
        self.open_group(doc, fresh_key);
        Ok(
            Created {
                event: RayGunEventKind::ConversationCreated { conversation_id: id },
                discover: copy_dids(&members),
                tell: copy_dids(&members),
                request_keys: members,
            },
        )
    }

    /// Takes a conversation and its keystore out. Its document comes back with the mark of
    /// deletion and without its messages.
    pub fn delete(&mut self, id: Uuid) -> (r: Result<ConversationDocument, Error>)
        ensures
            match delete_refusal(*old(self), id) {
                Some(e) => r == Err::<ConversationDocument, Error>(e) && *final(self) == *old(self),
                None => {
                    &&& is_deleted(*old(self), *final(self), id)
                    &&& r matches Ok(doc)
                    &&& is_marked(
                        old(self).conversations@[store::conversation_index(
                            old(self).conversations@,
                            id,
                        )],
                        doc,
                    )
                },
            },
            old(self).well_formed() ==> final(self).well_formed(),
    {
        match self.position(id) {
            Some(i) => {
                if self.conversations[i].deleted {
                    return Err(Error::InvalidConversation);
                }
                let mut doc = self.conversations.remove(i);
                doc.messages = Vec::new();
                doc.deleted = true;
                self.remove_keystore(id);
                Ok(doc)
            },
            None => Err(Error::InvalidConversation),
        }
    }

    /// Deletes a conversation. With `broadcast` the others in it are told; a group that someone
    /// else created is left instead.
    pub fn delete_conversation(&mut self, id: Uuid, broadcast: bool) -> (r: Result<Deleted, Error>)
        ensures
            delete_conversation_post(*old(self), *final(self), r, id, broadcast),
            old(self).well_formed() ==> final(self).well_formed(),
    {
        self.destroy_conversation(id);
        let ghost closed = *self;
        assert(is_closed(*old(self), closed, id));
        let document = match self.delete(id) {
            Ok(document) => document,
            Err(e) => return Err(e),
        };
        let farewell = Self::farewell(&document, self.own, broadcast);
        Ok(Deleted { document, farewell })
    }

    /// Who is told of the deletion of a conversation.
    fn farewell(document: &ConversationDocument, own: Did, broadcast: bool) -> (r: Result<
        Farewell,
        Error,
    >)
        ensures
            is_farewell(*document, own, broadcast, r),
    {
        let event = RayGunEventKind::ConversationDeleted { conversation_id: document.id };
        if !broadcast {
            return Ok(Farewell { event, leave: None, tell: Vec::new() });
        }
        let others = without_did(&document.recipients(), own);
        if document.conversation_type == ConversationType::Group {
            match document.creator {
                None => return Err(Error::InvalidConversation),
                Some(creator) => {
                    if creator != own {
                        let members = without_did(&others, creator);
                        return Ok(
                            Farewell { event, leave: Some((creator, members)), tell: Vec::new() },
                        );
                    }
                },
            }
        }
        Ok(Farewell { event, leave: None, tell: others })
    }

    /// Puts a group in with a keystore of its own, and opens it.
    pub(crate) fn open_group(&mut self, doc: ConversationDocument, fresh_key: Vec<u8>)
        ensures
            is_put_in(*old(self), *final(self), doc, fresh_key),
            old(self).well_formed() && doc.well_formed() ==> final(self).well_formed(),
    {
        let id: Uuid = doc.id;
        let mut keystore = Keystore::new();
        keystore.insert(self.own, fresh_key);
        assert(keystore.keys@ == seq![KeyEntry { did: self.own, key: fresh_key }]);
        self.set_document(doc);
        proof {
            lemma_with_conversation(old(self).conversations@, doc);
        }
        let _ = self.set_keystore(id, keystore);
        self.create_conversation_task(id);
    }
}

proof fn lemma_with_conversation(
    conversations: Seq<ConversationDocument>,
    doc: ConversationDocument,
)
    ensures
        store::has_conversation(with_conversation(conversations, doc), doc.id),
{
    let after = with_conversation(conversations, doc);
    if store::has_conversation(conversations, doc.id) {
        store::lemma_has_conversation(conversations, doc.id);
        assert(after[store::conversation_index(conversations, doc.id)].id == doc.id);
    } else {
        assert(after[conversations.len() as int].id == doc.id);
    }
}

/// The store after a conversation of two was put in and opened.
pub open spec fn is_opened_direct(
    before: ConversationInner,
    after: ConversationInner,
    id: Uuid,
    other: Did,
) -> bool {
    &&& after == (ConversationInner {
        conversations: after.conversations,
        open: after.open,
        ..before
    })
    &&& after.open@ == opened(before.open@, id)
    &&& exists|doc: ConversationDocument|
        is_new_direct(doc, id, before.own, other) && after.conversations@
            == #[trigger] with_conversation(before.conversations@, doc)
}

/// The store after a group was put in with a keystore of its own, and opened.
pub open spec fn is_put_in(
    before: ConversationInner,
    after: ConversationInner,
    doc: ConversationDocument,
    fresh_key: Vec<u8>,
) -> bool {
    &&& after == (ConversationInner {
        conversations: after.conversations,
        keystores: after.keystores,
        open: after.open,
        ..before
    })
    &&& after.conversations@ == with_conversation(before.conversations@, doc)
    &&& after.open@ == opened(before.open@, doc.id)
    &&& keystore_of(after.keystores@, doc.id) matches Some(keystore) && keystore.keys@ == seq![
        KeyEntry { did: before.own, key: fresh_key },
    ]
    &&& same_keystores_but(before.keystores@, after.keystores@, doc.id)
}

/// The store after a new group was put in and opened.
pub open spec fn is_opened_group(
    before: ConversationInner,
    after: ConversationInner,
    id: Uuid,
    name: Option<String>,
    members: Seq<Did>,
    restricted: Seq<Did>,
    permissions: GroupPermissionOpt,
    fresh_key: Vec<u8>,
) -> bool {
    exists|doc: ConversationDocument|
        is_new_group(doc, id, before.own, name, members, restricted, permissions)
            && #[trigger] is_put_in(before, after, doc, fresh_key)
}

} // verus!
