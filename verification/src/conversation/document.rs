//! The document of a conversation.
use vstd::prelude::*;
use indexmap::IndexMap;
use crate::error::Error;
use crate::ids::{copy_dids, Cid, Did, Uuid};
use crate::ordered::{self, permissions_clone, permissions_get};
use crate::text::copy_text;
use super::message::{self, Message};
use super::{ConversationType, GroupPermission};

verus! {

/// A member who has left, with the signature of its leave.
pub struct Exclusion {
    pub did: Did,
    pub signature: String,
}

pub struct ConversationDocument {
    pub id: Uuid,
    pub name: Option<String>,
    pub description: Option<String>,
    pub creator: Option<Did>,
    pub conversation_type: ConversationType,
    pub favorite: bool,
    pub archived: bool,
    pub deleted: bool,
    pub icon: Option<Cid>,
    pub banner: Option<Cid>,
    pub permissions: IndexMap<(u128, u128), Vec<GroupPermission>>,
    /// The members, those who have left among them.
    pub recipients: Vec<Did>,
    /// The members who have left and whom the creator has not removed yet.
    pub excluded: Vec<Exclusion>,
    /// Those who may not become members.
    pub restrict: Vec<Did>,
    pub messages: Vec<Message>,
}

/// Whether an identity has left.
pub open spec fn has_left(excluded: Seq<Exclusion>, did: Did) -> bool {
    exists|i: int| 0 <= i < excluded.len() && (#[trigger] excluded[i]).did == did
}

/// The members who have not left.
pub open spec fn present(recipients: Seq<Did>, excluded: Seq<Exclusion>) -> Seq<Did> {
    recipients.filter(|d: Did| !has_left(excluded, d))
}

/// The members of a list other than one, up to the first.
pub open spec fn first_other(list: Seq<Did>, own: Did) -> Option<Did>
    decreases list.len(),
{
    if list.len() == 0 {
        None
    } else if list[0] != own {
        Some(list[0])
    } else {
        first_other(list.drop_first(), own)
    }
}

/// Whether a message with this identifier is there.
pub open spec fn has_message(messages: Seq<Message>, id: Uuid) -> bool {
    exists|i: int| 0 <= i < messages.len() && (#[trigger] messages[i]).id == id
}

/// Whether `i` is the first position of a message with this identifier.
pub open spec fn is_message_at(messages: Seq<Message>, id: Uuid, i: int) -> bool {
    &&& 0 <= i < messages.len()
    &&& messages[i].id == id
    &&& forall|j: int| 0 <= j < i ==> (#[trigger] messages[j]).id != id
}

/// The first position of a message with this identifier.
pub open spec fn message_index(messages: Seq<Message>, id: Uuid) -> int {
    choose|i: int| is_message_at(messages, id, i)
}

/// No leave occurs twice.
pub open spec fn distinct_leaves(excluded: Seq<Exclusion>) -> bool {
    forall|i: int, j: int|
        0 <= i < j < excluded.len() ==> (#[trigger] excluded[i]).did != (
        #[trigger] excluded[j]).did
}

/// No identifier occurs twice.
pub open spec fn distinct_messages(messages: Seq<Message>) -> bool {
    forall|i: int, j: int|
        0 <= i < j < messages.len() ==> (#[trigger] messages[i]).id != (#[trigger] messages[j]).id
}

proof fn lemma_message_index(messages: Seq<Message>, id: Uuid, i: int)
    requires
        is_message_at(messages, id, i),
    ensures
        has_message(messages, id),
        message_index(messages, id) == i,
{
    let k = message_index(messages, id);
    assert(is_message_at(messages, id, k));
    assert(messages[i].id == id && messages[k].id == id);
}

/// Where a message is there, its index is a position of it.
pub proof fn lemma_has_message_index(messages: Seq<Message>, id: Uuid)
    requires
        has_message(messages, id),
    ensures
        is_message_at(messages, id, message_index(messages, id)),
{
    let i = choose|i: int| 0 <= i < messages.len() && (#[trigger] messages[i]).id == id;
    lemma_first_from(messages, id, i);
}

proof fn lemma_first_from(messages: Seq<Message>, id: Uuid, i: int)
    requires
        0 <= i < messages.len(),
        messages[i].id == id,
    ensures
        exists|k: int| is_message_at(messages, id, k),
    decreases i,
{
    if exists|j: int| 0 <= j < i && (#[trigger] messages[j]).id == id {
        let j = choose|j: int| 0 <= j < i && (#[trigger] messages[j]).id == id;
        lemma_first_from(messages, id, j);
    } else {
        assert(is_message_at(messages, id, i));
    }
}

/// Messages that say the same, in the same order.
pub open spec fn same_messages(a: Seq<Message>, b: Seq<Message>) -> bool {
    &&& a.len() == b.len()
    &&& forall|i: int| 0 <= i < a.len() ==> message::same_message(#[trigger] a[i], b[i])
}

/// Documents that say the same.
pub open spec fn same_document(a: ConversationDocument, b: ConversationDocument) -> bool {
    &&& a == (ConversationDocument {
        permissions: a.permissions,
        recipients: a.recipients,
        excluded: a.excluded,
        restrict: a.restrict,
        messages: a.messages,
        ..b
    })
    &&& ordered::permission_entries(a.permissions) == ordered::permission_entries(b.permissions)
    &&& a.recipients@ == b.recipients@
    &&& a.excluded@ == b.excluded@
    &&& a.restrict@ == b.restrict@
    &&& same_messages(a.messages@, b.messages@)
}

/// Copies of messages, in order.
pub fn copy_messages(list: &Vec<Message>) -> (r: Vec<Message>)
    ensures
        same_messages(r@, list@),
{
    let mut messages: Vec<Message> = Vec::new();
    let mut k: usize = 0;
    while k < list.len()
        invariant
            k <= list@.len(),
            same_messages(messages@, list@.take(k as int)),
        decreases list@.len() - k,
    {
        let ghost before = messages@;
        messages.push(list[k].copy());
        proof {
            let taken = list@.take(k + 1);
            assert forall|j: int| 0 <= j < messages@.len() implies message::same_message(
                #[trigger] messages@[j],
                taken[j],
            ) by {
                if j < k {
                    assert(messages@[j] == before[j]);
                    assert(message::same_message(before[j], list@.take(k as int)[j]));
                }
            }
        }
        k = k + 1;
    }
    assert(list@.take(k as int) == list@);
    messages
}

impl ConversationDocument {
    /// The members who have not left.
    pub open spec fn spec_recipients(self) -> Seq<Did> {
        present(self.recipients@, self.excluded@)
    }

    /// Whether an identity is the creator.
    pub open spec fn is_creator(self, did: Did) -> bool {
        self.creator == Some(did)
    }

    /// Whether an identity has a permission.
    pub open spec fn permits(self, did: Did, permission: GroupPermission) -> bool {
        match ordered::lookup(ordered::permission_entries(self.permissions), did) {
            Some(list) => list.contains(permission),
            None => false,
        }
    }

    /// The other member of a direct conversation, whose key its messages are encrypted for.
    pub open spec fn counterpart(self, own: Did) -> Option<Did> {
        first_other(self.spec_recipients(), own)
    }

    /// Why nothing can be encrypted for the conversation: it is direct, and nobody else is in it.
    pub open spec fn key_refusal(self, own: Did) -> Option<Error> {
        if self.conversation_type is Direct && self.counterpart(own) is None {
            Some(Error::InvalidConversation)
        } else {
            None
        }
    }

    /// Whether the document has to be signed before it is stored: its creator signs a group.
    pub open spec fn spec_needs_signature(self, own: Did) -> bool {
        self.is_creator(own) && self.conversation_type is Group
    }

    /// No message and no leave occurs twice.
    pub open spec fn well_formed(self) -> bool {
        &&& distinct_messages(self.messages@)
        &&& distinct_leaves(self.excluded@)
    }

    /// A copy of the document.
    pub fn copy(&self) -> (r: ConversationDocument)
        ensures
            same_document(r, *self),
            self.well_formed() ==> r.well_formed(),
    {
        let mut excluded: Vec<Exclusion> = Vec::new();
        let mut i: usize = 0;
        while i < self.excluded.len()
            invariant
                i <= self.excluded@.len(),
                excluded@ == self.excluded@.take(i as int),
            decreases self.excluded@.len() - i,
        {
            let x = &self.excluded[i];
            excluded.push(Exclusion { did: x.did, signature: x.signature.clone() });
            i = i + 1;
        }
        assert(excluded@ == self.excluded@);
        let messages = copy_messages(&self.messages);
        proof {
            if self.well_formed() {
                assert forall|a: int, b: int| 0 <= a < b < messages@.len() implies (
                #[trigger] messages@[a]).id != (#[trigger] messages@[b]).id by {
                    assert(self.messages@[a].id != self.messages@[b].id);
                }
            }
        }
        ConversationDocument {
            id: self.id,
            name: copy_text(&self.name),
            description: copy_text(&self.description),
            creator: self.creator,
            conversation_type: self.conversation_type,
            favorite: self.favorite,
            archived: self.archived,
            deleted: self.deleted,
            icon: self.icon,
            banner: self.banner,
            permissions: permissions_clone(&self.permissions),
            recipients: copy_dids(&self.recipients),
            excluded,
            restrict: copy_dids(&self.restrict),
            messages,
        }
    }

    pub fn needs_signature(&self, own: Did) -> (r: bool)
        ensures
            r == self.spec_needs_signature(own),
    {
        match self.creator {
            Some(creator) => creator == own && self.conversation_type == ConversationType::Group,
            None => false,
        }
    }

    /// Whether a member has left.
    pub fn is_excluded(&self, did: Did) -> (r: bool)
        ensures
            r == has_left(self.excluded@, did),
    {
        let mut i: usize = 0;
        while i < self.excluded.len()
            invariant
                i <= self.excluded@.len(),
                forall|j: int| 0 <= j < i ==> (#[trigger] self.excluded@[j]).did != did,
            decreases self.excluded@.len() - i,
        {
            if self.excluded[i].did == did {
                assert(self.excluded@[i as int].did == did);
                return true;
            }
            i = i + 1;
        }
        false
    }

    /// The members who have not left.
    pub fn recipients(&self) -> (r: Vec<Did>)
        ensures
            r@ == self.spec_recipients(),
    {
        let mut r: Vec<Did> = Vec::new();
        let mut i: usize = 0;
        let ghost all = self.recipients@;
        proof {
            reveal(Seq::filter);
            assert(all.take(0) == Seq::<Did>::empty());
        }
        while i < self.recipients.len()
            invariant
                all == self.recipients@,
                i <= all.len(),
                r@ == present(all.take(i as int), self.excluded@),
            decreases all.len() - i,
        {
            proof {
                reveal(Seq::filter);
                assert(all.take(i + 1).drop_last() == all.take(i as int));
                assert(all.take(i + 1).last() == all[i as int]);
            }
            if !self.is_excluded(self.recipients[i]) {
                r.push(self.recipients[i]);
            }
            i = i + 1;
        }
        assert(all.take(all.len() as int) == all);
        r
    }

    /// The other member of a direct conversation.
    pub fn other_member(&self, own: Did) -> (r: Option<Did>)
        ensures
            r == self.counterpart(own),
    {
        let list = self.recipients();
        let mut i: usize = 0;
        assert(list@.skip(0) == list@);
        while i < list.len()
            invariant
                i <= list@.len(),
                list@ == self.spec_recipients(),
                first_other(list@.skip(i as int), own) == first_other(list@, own),
            decreases list@.len() - i,
        {
            assert(list@.skip(i as int)[0] == list@[i as int]);
            assert(list@.skip(i as int).drop_first() == list@.skip(i + 1));
            if list[i] != own {
                return Some(list[i]);
            }
            i = i + 1;
        }
        None
    }

    /// Checks that something can be encrypted for the conversation.
    pub fn check_key(&self, own: Did) -> (r: Result<(), Error>)
        ensures
            match self.key_refusal(own) {
                Some(e) => r == Err::<(), Error>(e),
                None => r is Ok,
            },
    {
        match self.conversation_type {
            ConversationType::Direct => match self.other_member(own) {
                Some(_) => Ok(()),
                None => Err(Error::InvalidConversation),
            },
            ConversationType::Group => Ok(()),
        }
    }

    /// Whether an identity has a permission.
    pub fn has_permission(&self, did: Did, permission: GroupPermission) -> (r: bool)
        ensures
            r == self.permits(did, permission),
    {
        match permissions_get(&self.permissions, did) {
            Some(list) => contains_permission(list, permission),
            None => false,
        }
    }

    /// The position of a message.
    pub fn position(&self, id: Uuid) -> (r: Option<usize>)
        ensures
            match r {
                Some(i) => has_message(self.messages@, id) && i == message_index(
                    self.messages@,
                    id,
                ) && is_message_at(self.messages@, id, i as int),
                None => !has_message(self.messages@, id),
            },
    {
        let mut i: usize = 0;
        while i < self.messages.len()
            invariant
                i <= self.messages@.len(),
                forall|j: int| 0 <= j < i ==> (#[trigger] self.messages@[j]).id != id,
            decreases self.messages@.len() - i,
        {
            if self.messages[i].id == id {
                proof {
                    assert(is_message_at(self.messages@, id, i as int));
                    lemma_message_index(self.messages@, id, i as int);
                }
                return Some(i);
            }
            i = i + 1;
        }
        None
    }

    /// Whether a message is there.
    pub fn contains(&self, id: Uuid) -> (r: bool)
        ensures
            r == has_message(self.messages@, id),
    {
        self.position(id).is_some()
    }

    pub fn messages_count(&self) -> (r: usize)
        ensures
            r == self.messages@.len(),
    {
        self.messages.len()
    }

    /// A message.
    pub fn get_message(&self, id: Uuid) -> (r: Result<&Message, Error>)
        ensures
            match r {
                Ok(m) => has_message(self.messages@, id) && *m == self.messages@[message_index(
                    self.messages@,
                    id,
                )],
                Err(e) => !has_message(self.messages@, id) && e == Error::MessageNotFound,
            },
    {
        match self.position(id) {
            Some(i) => Ok(&self.messages[i]),
            None => Err(Error::MessageNotFound),
        }
    }

    /// Puts a message in. One that is there already is refused.
    pub fn insert_message(&mut self, message: Message) -> (r: Result<(), Error>)
        ensures
            if has_message(old(self).messages@, message.id) {
                r == Err::<(), Error>(Error::MessageFound) && *final(self) == *old(self)
            } else {
                &&& r is Ok
                &&& final(self).messages@ == old(self).messages@.push(message)
                &&& *final(self) == (ConversationDocument {
                    messages: final(self).messages,
                    ..*old(self)
                })
            },
            old(self).well_formed() ==> final(self).well_formed(),
    {
        if self.contains(message.id) {
            return Err(Error::MessageFound);
        }
        self.messages.push(message);
        Ok(())
    }

    /// Takes a message out.
    pub fn remove_message(&mut self, id: Uuid) -> (r: Result<(), Error>)
        ensures
            if has_message(old(self).messages@, id) {
                &&& r is Ok
                &&& final(self).messages@ == old(self).messages@.remove(
                    message_index(old(self).messages@, id),
                )
                &&& *final(self) == (ConversationDocument {
                    messages: final(self).messages,
                    ..*old(self)
                })
            } else {
                r == Err::<(), Error>(Error::MessageNotFound) && *final(self) == *old(self)
            },
            old(self).well_formed() ==> final(self).well_formed(),
    {
        match self.position(id) {
            Some(i) => {
                self.messages.remove(i);
                Ok(())
            },
            None => Err(Error::MessageNotFound),
        }
    }
}

/// Whether a list holds a permission.
pub fn contains_permission(list: &Vec<GroupPermission>, permission: GroupPermission) -> (r: bool)
    ensures
        r == list@.contains(permission),
{
    let mut i: usize = 0;
    while i < list.len()
        invariant
            i <= list@.len(),
            forall|j: int| 0 <= j < i ==> list@[j] != permission,
        decreases list@.len() - i,
    {
        if list[i] == permission {
            assert(list@[i as int] == permission);
            return true;
        }
        i = i + 1;
    }
    false
}

} // verus!
