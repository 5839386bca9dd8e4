//! The members of a group: who may join, who leaves, who is kept out, and what each may do.
use vstd::prelude::*;
use vstd::string::*;
use indexmap::IndexMap;
use crate::encoding::{self, base58_decode, base58_encode};
use crate::error::{Error, Reason};
use crate::ids::{self, contains_did, without_did, Did};
use crate::ordered::{self, permissions_at, permissions_get, permissions_len};
use super::document::{self, contains_permission, ConversationDocument, Exclusion};
use super::{
    ConversationType, DirectEvent, Effects, Grant, GroupPermission, MessageEventKind, Outgoing,
    Publication,
};

verus! {

/// New permissions: those of all members, or those of one.
pub enum GroupPermissionOpt {
    All(IndexMap<(u128, u128), Vec<GroupPermission>>),
    Single(Did, Vec<GroupPermission>),
}

/// Members with their permissions.
pub type Permissions = Seq<(Did, Seq<GroupPermission>)>;

/// The permissions of a list that another list lacks.
pub open spec fn lacking(
    list: Seq<GroupPermission>,
    base: Seq<GroupPermission>,
) -> Seq<GroupPermission> {
    list.filter(|p: GroupPermission| !base.contains(p))
}

/// The permissions of one member.
pub open spec fn permissions_of(entries: Permissions, did: Did) -> Seq<GroupPermission> {
    match ordered::lookup(entries, did) {
        Some(list) => list,
        None => Seq::empty(),
    }
}

/// Permissions as grants to one member.
pub open spec fn grants(did: Did, list: Seq<GroupPermission>) -> Seq<Grant> {
    list.map_values(|permission: GroupPermission| Grant { did, permission })
}

/// The grants that `entries` hold beyond `base`.
pub open spec fn granted_beyond(entries: Permissions, base: Permissions) -> Seq<Grant>
    decreases entries.len(),
{
    if entries.len() == 0 {
        Seq::empty()
    } else {
        let (did, list) = entries.last();
        granted_beyond(entries.drop_last(), base) + grants(
            did,
            lacking(list, permissions_of(base, did)),
        )
    }
}

fn push_lacking(
    r: &mut Vec<Grant>,
    did: Did,
    list: &Vec<GroupPermission>,
    base: Option<&Vec<GroupPermission>>,
)
    ensures
        final(r)@ == old(r)@ + grants(
            did,
            lacking(
                list@,
                match base {
                    Some(b) => b@,
                    None => Seq::empty(),
                },
            ),
        ),
{
    let ghost start = r@;
    let ghost b = match base {
        Some(b) => b@,
        None => Seq::empty(),
    };
    let mut i: usize = 0;
    proof {
        reveal(Seq::filter);
        assert(list@.take(0) == Seq::<GroupPermission>::empty());
        assert(start + grants(did, lacking(list@.take(0), b)) == start);
    }
    while i < list.len()
        invariant
            i <= list@.len(),
            b == (match base {
                Some(b) => b@,
                None => Seq::empty(),
            }),
            r@ == start + grants(did, lacking(list@.take(i as int), b)),
        decreases list@.len() - i,
    {
        let held: bool = match base {
            Some(b) => contains_permission(b, list[i]),
            None => false,
        };
        proof {
            reveal(Seq::filter);
            assert(list@.take(i + 1).drop_last() == list@.take(i as int));
            assert(list@.take(i + 1).last() == list@[i as int]);
        }
        let ghost before = r@;
        if !held {
            r.push(Grant { did, permission: list[i] });
            assert(r@ == start + grants(did, lacking(list@.take(i + 1), b)));
        }
        i = i + 1;
    }
    assert(list@.take(list@.len() as int) == list@);
}

/// The grants that the first permissions hold beyond the second.
pub fn difference(
    of: &IndexMap<(u128, u128), Vec<GroupPermission>>,
    base: &IndexMap<(u128, u128), Vec<GroupPermission>>,
) -> (r: Vec<Grant>)
    ensures
        r@ == granted_beyond(
            ordered::permission_entries(*of),
            ordered::permission_entries(*base),
        ),
{
    let mut r: Vec<Grant> = Vec::new();
    let n: usize = permissions_len(of);
    let ghost entries = ordered::permission_entries(*of);
    let ghost others = ordered::permission_entries(*base);
    let mut i: usize = 0;
    while i < n
        invariant
            n == entries.len(),
            entries == ordered::permission_entries(*of),
            others == ordered::permission_entries(*base),
            i <= n,
            r@ == granted_beyond(entries.take(i as int), others),
        decreases n - i,
    {
        match permissions_at(of, i) {
            Some((did, list)) => {
                proof {
                    assert(entries.take(i + 1).drop_last() == entries.take(i as int));
                    assert(entries.take(i + 1).last() == entries[i as int]);
                }
                push_lacking(&mut r, did, list, permissions_get(base, did));
            },
            None => {},
        }
        i = i + 1;
    }
    assert(entries.take(entries.len() as int) == entries);
    r
}

/// Why a member is not taken in.
pub open spec fn add_refusal(
    doc: ConversationDocument,
    own: Did,
    did: Did,
    blocked: bool,
) -> Option<Error> {
    if doc.conversation_type is Direct || doc.creator is None {
        Some(Error::InvalidConversation)
    } else if !doc.permits(own, GroupPermission::AddParticipants) && !doc.is_creator(own) {
        Some(Error::PublicKeyInvalid)
    } else if doc.is_creator(did) {
        Some(Error::PublicKeyInvalid)
    } else if blocked || doc.restrict@.contains(did) {
        Some(Error::PublicKeyIsBlocked)
    } else if doc.recipients@.contains(did) {
        Some(Error::IdentityExist)
    } else {
        None
    }
}

/// Why only the creator of a group, for anyone but itself, gets further.
pub open spec fn creator_refusal(doc: ConversationDocument, own: Did, did: Did) -> Option<Error> {
    if doc.conversation_type is Direct || doc.creator is None {
        Some(Error::InvalidConversation)
    } else if !doc.is_creator(own) || doc.is_creator(did) {
        Some(Error::PublicKeyInvalid)
    } else {
        None
    }
}

/// Why a member is not taken out.
pub open spec fn remove_refusal(doc: ConversationDocument, own: Did, did: Did) -> Option<Error> {
    match creator_refusal(doc, own, did) {
        Some(e) => Some(e),
        None => if doc.recipients@.contains(did) {
            None
        } else {
            Some(Error::IdentityDoesntExist)
        },
    }
}

/// Why an identity is not kept out: it has to be blocked.
pub open spec fn restrict_refusal(
    doc: ConversationDocument,
    own: Did,
    did: Did,
    blocked: bool,
) -> Option<Error> {
    match creator_refusal(doc, own, did) {
        Some(e) => Some(e),
        None => if blocked {
            None
        } else {
            Some(Error::PublicKeyIsntBlocked)
        },
    }
}

/// Why an identity is kept out further: it may not be blocked.
pub open spec fn unrestrict_refusal(
    doc: ConversationDocument,
    own: Did,
    did: Did,
    blocked: bool,
) -> Option<Error> {
    match creator_refusal(doc, own, did) {
        Some(e) => Some(e),
        None => if blocked {
            Some(Error::PublicKeyIsBlocked)
        } else {
            None
        },
    }
}

/// Why the permissions are not changed.
pub open spec fn permissions_refusal(doc: ConversationDocument, own: Did) -> Option<Error> {
    if doc.creator is None {
        Some(Error::InvalidConversation)
    } else if !doc.is_creator(own) {
        Some(Error::PublicKeyInvalid)
    } else {
        None
    }
}

/// What is signed by a member who leaves.
pub open spec fn leave_context(did_text: Seq<char>) -> Seq<char> {
    seq!['e', 'x', 'c', 'l', 'u', 'd', 'e', ' '] + did_text
}

/// Why the leave of a member is refused. `decoded` is what its signature decodes to, and `genuine`
/// whether that is the member's own signature.
pub open spec fn leave_refusal(
    doc: ConversationDocument,
    own: Did,
    member: Did,
    decoded: Option<Seq<u8>>,
    genuine: bool,
) -> Option<Error> {
    if !(doc.conversation_type is Group) {
        Some(Error::OtherWithContext(Reason::LeaveOnlyGroup))
    } else if doc.creator is None {
        Some(Error::OtherWithContext(Reason::GroupWithoutCreator))
    } else if doc.is_creator(member) {
        Some(Error::OtherWithContext(Reason::RemoveCreator))
    } else if !doc.recipients@.contains(member) {
        Some(
            Error::OtherWithContext(Reason::NotAMember { member, conversation_id: doc.id }),
        )
    } else if !doc.is_creator(own) && (decoded is None || !genuine) {
        Some(Error::OtherWithContext(Reason::InvalidSignature))
    } else {
        None
    }
}

/// What is left to do after a member was taken out.
pub open spec fn removed_effects(
    doc: ConversationDocument,
    did: Did,
    broadcast: bool,
) -> Effects {
    Effects {
        save: true,
        event: Some(
            MessageEventKind::RecipientRemoved { conversation_id: doc.id, recipient: did },
        ),
        mailbox: None,
        publish: Some(
            Publication { message_id: None, event: Outgoing::RemoveParticipant { did } },
        ),
        direct: if broadcast {
            Some((did, DirectEvent::DeleteConversation { conversation_id: doc.id }))
        } else {
            None
        },
        request_key: None,
        ping: None,
        discover: None,
    }
}

/// What is left to do after a silent change, which only the other members are told.
pub open spec fn silent_effects(event: Outgoing) -> Effects {
    Effects {
        save: true,
        event: None,
        mailbox: None,
        publish: Some(Publication { message_id: None, event }),
        direct: None,
        request_key: None,
        ping: None,
        discover: None,
    }
}

/// What a member who leaves signs.
pub fn exclusion_context(did_text: &str) -> (r: String)
    ensures
        r@ == leave_context(did_text@),
{
    proof {
        reveal_strlit("exclude ");
        assert("exclude "@ == seq!['e', 'x', 'c', 'l', 'u', 'd', 'e', ' ']);
    }
    "exclude ".to_owned().concat(did_text)
}

/// The text form of the signature with which a member leaves.
pub fn leave_signature(signature: &Vec<u8>) -> (r: String)
    requires
        signature@.len() <= usize::MAX / 4,
    ensures
        r@ == encoding::base58_encoded(signature@),
        encoding::base58_decoded(r@) == Some(signature@),
{
    base58_encode(signature)
}

/// The signature to be checked against the context of a leave, where the text holds one.
pub fn signature_bytes(signature: &str) -> (r: Option<Vec<u8>>)
    ensures
        match r {
            Some(bytes) => encoding::base58_decoded(signature@) == Some(bytes@),
            None => encoding::base58_decoded(signature@) is None,
        },
{
    base58_decode(signature)
}

/// What `ConversationDocument::add_participant` does.
pub open spec fn add_participant_post(
    before: ConversationDocument,
    after: ConversationDocument,
    r: Result<Effects, Error>,
    own: Did,
    did: Did,
    blocked: bool,
) -> bool {
    match add_refusal(before, own, did, blocked) {
        Some(e) => r == Err::<Effects, Error>(e) && after == before,
        None => {
            &&& r == Ok::<Effects, Error>(
                Effects {
                    save: true,
                    event: Some(
                        MessageEventKind::RecipientAdded {
                            conversation_id: before.id,
                            recipient: did,
                        },
                    ),
                    mailbox: None,
                    publish: Some(
                        Publication {
                            message_id: None,
                            event: Outgoing::AddParticipant { did },
                        },
                    ),
                    direct: Some(
                        (
                            did,
                            DirectEvent::NewGroupConversation {
                                conversation_id: before.id,
                            },
                        ),
                    ),
                    request_key: None,
                    ping: None,
                    discover: None,
                },
            )
            &&& after.recipients@ == before.recipients@.push(did)
            &&& after == (ConversationDocument {
                recipients: after.recipients,
                ..before
            })
        },
    }
}

/// What `ConversationDocument::remove_participant` does.
pub open spec fn remove_participant_post(
    before: ConversationDocument,
    after: ConversationDocument,
    r: Result<Effects, Error>,
    own: Did,
    did: Did,
    broadcast: bool,
) -> bool {
    match remove_refusal(before, own, did) {
        Some(e) => r == Err::<Effects, Error>(e) && after == before,
        None => {
            &&& r == Ok::<Effects, Error>(removed_effects(before, did, broadcast))
            &&& after.recipients@ == ids::without(before.recipients@, did)
            &&& after == (ConversationDocument {
                recipients: after.recipients,
                ..before
            })
        },
    }
}

/// What `ConversationDocument::add_restricted` does.
pub open spec fn add_restricted_post(
    before: ConversationDocument,
    after: ConversationDocument,
    r: Result<Effects, Error>,
    own: Did,
    did: Did,
    blocked: bool,
) -> bool {
    match restrict_refusal(before, own, did, blocked) {
        Some(e) => r == Err::<Effects, Error>(e) && after == before,
        None => {
            &&& r == Ok::<Effects, Error>(silent_effects(Outgoing::AddRestricted { did }))
            &&& after.restrict@ == before.restrict@.push(did)
            &&& after == (ConversationDocument {
                restrict: after.restrict,
                ..before
            })
        },
    }
}

/// What `ConversationDocument::remove_restricted` does.
pub open spec fn remove_restricted_post(
    before: ConversationDocument,
    after: ConversationDocument,
    r: Result<Effects, Error>,
    own: Did,
    did: Did,
    blocked: bool,
) -> bool {
    match unrestrict_refusal(before, own, did, blocked) {
        Some(e) => r == Err::<Effects, Error>(e) && after == before,
        None => {
            &&& r == Ok::<Effects, Error>(
                silent_effects(Outgoing::RemoveRestricted { did }),
            )
            &&& after.restrict@ == ids::without(before.restrict@, did)
            &&& after == (ConversationDocument {
                restrict: after.restrict,
                ..before
            })
        },
    }
}

/// What `ConversationDocument::add_exclusion` does.
pub open spec fn add_exclusion_post(
    before: ConversationDocument,
    after: ConversationDocument,
    r: Result<Effects, Error>,
    own: Did,
    member: Did,
    signature: String,
    genuine: bool,
) -> bool {
    match leave_refusal(
        before,
        own,
        member,
        encoding::base58_decoded(signature@),
        genuine,
    ) {
        Some(e) => r == Err::<Effects, Error>(e) && after == before,
        None => if before.is_creator(own) {
            &&& r == Ok::<Effects, Error>(removed_effects(before, member, false))
            &&& after.recipients@ == ids::without(before.recipients@, member)
            &&& after == (ConversationDocument {
                recipients: after.recipients,
                ..before
            })
        } else if document::has_left(before.excluded@, member) {
            &&& r == Ok::<Effects, Error>(Effects { save: true, ..Effects::spec_none() })
            &&& after == before
        } else {
            &&& r == Ok::<Effects, Error>(
                Effects {
                    save: true,
                    event: Some(
                        MessageEventKind::RecipientRemoved {
                            conversation_id: before.id,
                            recipient: member,
                        },
                    ),
                    ..Effects::spec_none()
                },
            )
            &&& after.excluded@ == before.excluded@.push(
                Exclusion { did: member, signature },
            )
            &&& after == (ConversationDocument {
                excluded: after.excluded,
                ..before
            })
        },
    }
}

/// What `ConversationDocument::update_permissions` does.
pub open spec fn update_permissions_post(
    before: ConversationDocument,
    after: ConversationDocument,
    r: Result<Effects, Error>,
    own: Did,
    permissions: GroupPermissionOpt,
) -> bool {
    match permissions_refusal(before, own) {
        Some(e) => r == Err::<Effects, Error>(e) && after == before,
        None => {
            let earlier = ordered::permission_entries(before.permissions);
            match r {
                Err(_) => false,
                Ok(effects) => {
                    &&& effects == (Effects {
                        event: effects.event,
                        ..silent_effects(Outgoing::ChangePermissions)
                    })
                    &&& match effects.event {
                        Some(
                            MessageEventKind::ConversationPermissionsUpdated {
                                conversation_id,
                                added,
                                removed,
                            },
                        ) => {
                            &&& conversation_id == before.id
                            &&& match permissions {
                                GroupPermissionOpt::All(map) => {
                                    let later = ordered::permission_entries(map);
                                    &&& added@ == granted_beyond(later, earlier)
                                    &&& removed@ == granted_beyond(earlier, later)
                                    &&& after == (ConversationDocument {
                                        permissions: map,
                                        ..before
                                    })
                                },
                                GroupPermissionOpt::Single(did, list) => {
                                    let held = permissions_of(earlier, did);
                                    &&& added@ == grants(did, lacking(held, list@))
                                    &&& removed@ == grants(did, lacking(list@, held))
                                    &&& after == before
                                },
                            }
                        },
                        _ => false,
                    }
                },
            }
        },
    }
}

impl ConversationDocument {
    fn check_creator(&self, own: Did, did: Did) -> (r: Result<(), Error>)
        ensures
            match creator_refusal(*self, own, did) {
                Some(e) => r == Err::<(), Error>(e),
                None => r is Ok,
            },
    {
        if self.conversation_type == ConversationType::Direct {
            return Err(Error::InvalidConversation);
        }
        match self.creator {
            None => Err(Error::InvalidConversation),
            Some(creator) => if creator != own || creator == did {
                Err(Error::PublicKeyInvalid)
            } else {
                Ok(())
            },
        }
    }

    /// Takes a member in. `blocked` says whether the own identity has blocked it.
    pub fn add_participant(
        &mut self,
        own: Did,
        did: Did,
        blocked: bool,
    ) -> (r: Result<Effects, Error>)
        ensures
            add_participant_post(*old(self), *final(self), r, own, did, blocked),
    {
        if self.conversation_type == ConversationType::Direct {
            return Err(Error::InvalidConversation);
        }
        let creator: Did = match self.creator {
            Some(creator) => creator,
            None => return Err(Error::InvalidConversation),
        };
        if !self.has_permission(own, GroupPermission::AddParticipants) && creator != own {
            return Err(Error::PublicKeyInvalid);
        }
        if creator == did {
            return Err(Error::PublicKeyInvalid);
        }
        if blocked || contains_did(&self.restrict, did) {
            return Err(Error::PublicKeyIsBlocked);
        }
        if contains_did(&self.recipients, did) {
            return Err(Error::IdentityExist);
        }
        self.recipients.push(did);
        Ok(
            Effects {
                save: true,
                event: Some(
                    MessageEventKind::RecipientAdded { conversation_id: self.id, recipient: did },
                ),
                mailbox: None,
                publish: Some(
                    Publication { message_id: None, event: Outgoing::AddParticipant { did } },
                ),
                direct: Some(
                    (did, DirectEvent::NewGroupConversation { conversation_id: self.id }),
                ),
                request_key: None,
                ping: None,
                discover: None,
            },
        )
    }

    /// Takes a member out, and tells it so where `broadcast` is set.
    pub fn remove_participant(
        &mut self,
        own: Did,
        did: Did,
        broadcast: bool,
    ) -> (r: Result<Effects, Error>)
        ensures
            remove_participant_post(*old(self), *final(self), r, own, did, broadcast),
    {
        match self.check_creator(own, did) {
            Err(e) => return Err(e),
            Ok(()) => {},
        }
        if !contains_did(&self.recipients, did) {
            return Err(Error::IdentityDoesntExist);
        }
        self.recipients = without_did(&self.recipients, did);
        Ok(
            Effects {
                save: true,
                event: Some(
                    MessageEventKind::RecipientRemoved {
                        conversation_id: self.id,
                        recipient: did,
                    },
                ),
                mailbox: None,
                publish: Some(
                    Publication { message_id: None, event: Outgoing::RemoveParticipant { did } },
                ),
                direct: if broadcast {
                    Some((did, DirectEvent::DeleteConversation { conversation_id: self.id }))
                } else {
                    None
                },
                request_key: None,
                ping: None,
                discover: None,
            },
        )
    }

    /// Keeps a blocked identity out.
    pub fn add_restricted(
        &mut self,
        own: Did,
        did: Did,
        blocked: bool,
    ) -> (r: Result<Effects, Error>)
        ensures
            add_restricted_post(*old(self), *final(self), r, own, did, blocked),
    {
        match self.check_creator(own, did) {
            Err(e) => return Err(e),
            Ok(()) => {},
        }
        if !blocked {
            return Err(Error::PublicKeyIsntBlocked);
        }
        self.restrict.push(did);
        Ok(
            Effects {
                save: true,
                event: None,
                mailbox: None,
                publish: Some(
                    Publication { message_id: None, event: Outgoing::AddRestricted { did } },
                ),
                direct: None,
                request_key: None,
                ping: None,
                discover: None,
            },
        )
    }

    /// No longer keeps an identity out.
    pub fn remove_restricted(
        &mut self,
        own: Did,
        did: Did,
        blocked: bool,
    ) -> (r: Result<Effects, Error>)
        ensures
            remove_restricted_post(*old(self), *final(self), r, own, did, blocked),
    {
        match self.check_creator(own, did) {
            Err(e) => return Err(e),
            Ok(()) => {},
        }
        if blocked {
            return Err(Error::PublicKeyIsBlocked);
        }
        self.restrict = without_did(&self.restrict, did);
        Ok(
            Effects {
                save: true,
                event: None,
                mailbox: None,
                publish: Some(
                    Publication { message_id: None, event: Outgoing::RemoveRestricted { did } },
                ),
                direct: None,
                request_key: None,
                ping: None,
                discover: None,
            },
        )
    }

    /// Notes that a member leaves. The creator takes it out; another member remembers the leave
    /// until the creator has done so. `genuine` says whether the decoded signature is the
    /// member's own under the context of its leave.
    pub fn add_exclusion(
        &mut self,
        own: Did,
        member: Did,
        signature: String,
        genuine: bool,
    ) -> (r: Result<Effects, Error>)
        ensures
            add_exclusion_post(*old(self), *final(self), r, own, member, signature, genuine),
            old(self).well_formed() ==> final(self).well_formed(),
    {
        if self.conversation_type != ConversationType::Group {
            return Err(Error::OtherWithContext(Reason::LeaveOnlyGroup));
        }
        let creator: Did = match self.creator {
            Some(creator) => creator,
            None => return Err(Error::OtherWithContext(Reason::GroupWithoutCreator)),
        };
        if member == creator {
            return Err(Error::OtherWithContext(Reason::RemoveCreator));
        }
        if !contains_did(&self.recipients, member) {
            return Err(
                Error::OtherWithContext(Reason::NotAMember { member, conversation_id: self.id }),
            );
        }
        if creator == own {
            return self.remove_participant(own, member, false);
        }
        if signature_bytes(signature.as_str()).is_none() || !genuine {
            return Err(Error::OtherWithContext(Reason::InvalidSignature));
        }
        if self.is_excluded(member) {
            return Ok(
                Effects {
                    save: true,
                    event: None,
                    mailbox: None,
                    publish: None,
                    direct: None,
                    request_key: None,
                    ping: None,
                    discover: None,
                },
            );
        }
        self.excluded.push(Exclusion { did: member, signature });
        Ok(
            Effects {
                save: true,
                event: Some(
                    MessageEventKind::RecipientRemoved {
                        conversation_id: self.id,
                        recipient: member,
                    },
                ),
                mailbox: None,
                publish: None,
                direct: None,
                request_key: None,
                ping: None,
                discover: None,
            },
        )
    }

    /// Changes the permissions. Those of all members are replaced. Those of a single member are
    /// announced and not kept: what is stored and what the other members get is as it was, and
    /// the subscribers are told how it differs from what was asked for.
    pub fn update_permissions(
        &mut self,
        own: Did,
        permissions: GroupPermissionOpt,
    ) -> (r: Result<Effects, Error>)
        ensures
            update_permissions_post(*old(self), *final(self), r, own, permissions),
    {
        match self.creator {
            None => return Err(Error::InvalidConversation),
            Some(creator) => if creator != own {
                return Err(Error::PublicKeyInvalid);
            },
        }
        let mut added: Vec<Grant> = Vec::new();
        let mut removed: Vec<Grant> = Vec::new();
        match permissions {
            GroupPermissionOpt::All(map) => {
                added = difference(&map, &self.permissions);
                removed = difference(&self.permissions, &map);
                self.permissions = map;
            },
            GroupPermissionOpt::Single(did, list) => {
                let held = permissions_get(&self.permissions, did);
                match held {
                    Some(held) => {
                        push_lacking(&mut added, did, held, Some(&list));
                    },
                    None => {
                        proof {
                            reveal(Seq::filter);
                        }
                        assert(added@ == grants(
                            did,
                            lacking(Seq::<GroupPermission>::empty(), list@),
                        ));
                    },
                }
                push_lacking(&mut removed, did, &list, held);
            },
        }
        Ok(
            Effects {
                save: true,
                event: Some(
                    MessageEventKind::ConversationPermissionsUpdated {
                        conversation_id: self.id,
                        added,
                        removed,
                    },
                ),
                mailbox: None,
                publish: Some(
                    Publication { message_id: None, event: Outgoing::ChangePermissions },
                ),
                direct: None,
                request_key: None,
                ping: None,
                discover: None,
            },
        )
    }
}

} // verus!
