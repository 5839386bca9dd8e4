//! The communities that are known to the own identity.
use vstd::prelude::*;
use indexmap::IndexSet;
use crate::conversation::keys::{KeyEntry, Keystore};
use crate::conversation::{MessageEventKind, RayGunEventKind};
use crate::error::Error;
use crate::ids::{Did, Timestamp, Uuid};
use crate::ordered::{self, dids_contains};
use crate::text::copy_text;
use super::document::{self, CommunityDocument};
use super::tables::{
    self, channels_at, channels_len, dids_clone, grants_clone, invites_at, invites_len, roles_at,
    roles_insert, roles_len, roles_new, uuids_insert, uuids_new,
};
use super::{
    Community, CommunityChannel, CommunityChannelPermission, CommunityChannelPermissions,
    CommunityChannelType, CommunityInvite, CommunityPermission, CommunityPermissions,
    CommunityRole, CommunityRoles, RoleId,
};

verus! {

/// The keystore of a community.
pub struct CommunityKeystore {
    pub id: Uuid,
    pub keystore: Keystore,
}

pub struct CommunityStore {
    /// The own identity.
    pub own: Did,
    pub communities: Vec<CommunityDocument>,
    pub keystores: Vec<CommunityKeystore>,
    /// How many channels a community has at most.
    pub max_channels: usize,
}

/// Whether a community is there.
pub open spec fn has_community(communities: Seq<CommunityDocument>, id: Uuid) -> bool {
    exists|i: int| 0 <= i < communities.len() && (#[trigger] communities[i]).id == id
}

/// Whether `i` is the first position of a community.
pub open spec fn is_community_at(
    communities: Seq<CommunityDocument>,
    id: Uuid,
    i: int,
) -> bool {
    &&& 0 <= i < communities.len()
    &&& communities[i].id == id
    &&& forall|j: int| 0 <= j < i ==> (#[trigger] communities[j]).id != id
}

/// The first position of a community.
pub open spec fn community_index(communities: Seq<CommunityDocument>, id: Uuid) -> int {
    choose|i: int| is_community_at(communities, id, i)
}

/// Nothing but the community at `i` changed.
pub open spec fn only_changed(before: CommunityStore, after: CommunityStore, i: int) -> bool {
    &&& after.communities@ == before.communities@.update(i, after.communities@[i])
    &&& after == (CommunityStore { communities: after.communities, ..before })
}

/// The communities with one more, which takes the place of one with its identifier.
pub open spec fn with_community(
    communities: Seq<CommunityDocument>,
    doc: CommunityDocument,
) -> Seq<CommunityDocument> {
    if has_community(communities, doc.id) {
        communities.update(community_index(communities, doc.id), doc)
    } else {
        communities.push(doc)
    }
}

/// The communities after one was made.
pub open spec fn is_added(
    before: Seq<CommunityDocument>,
    after: Seq<CommunityDocument>,
    community: Community,
    id: Uuid,
    creator: Did,
    name: Seq<char>,
    now: Timestamp,
) -> bool {
    exists|doc: CommunityDocument|
        {
            &&& document::is_new(doc, id, creator, name, now)
            &&& after == #[trigger] with_community(before, doc)
            &&& shown(doc, community)
        }
}

/// The communities that an identity is a member of.
pub open spec fn joined(communities: Seq<CommunityDocument>, user: Did) -> Seq<Uuid>
    decreases communities.len(),
{
    if communities.len() == 0 {
        Seq::empty()
    } else {
        let rest = joined(communities.drop_last(), user);
        if communities.last().has_member(user) {
            rest.push(communities.last().id)
        } else {
            rest
        }
    }
}

/// The invites of a community that are for an identity alone.
pub open spec fn invites_for(
    community_id: Uuid,
    entries: Seq<(Uuid, CommunityInvite)>,
    user: Did,
) -> Seq<(Uuid, CommunityInvite)>
    decreases entries.len(),
{
    if entries.len() == 0 {
        Seq::empty()
    } else {
        let rest = invites_for(community_id, entries.drop_last(), user);
        if entries.last().1.target_user == Some(user) {
            rest.push((community_id, entries.last().1))
        } else {
            rest
        }
    }
}

/// The invites that are for an identity alone, each with its community.
pub open spec fn invited_to(
    communities: Seq<CommunityDocument>,
    user: Did,
) -> Seq<(Uuid, CommunityInvite)>
    decreases communities.len(),
{
    if communities.len() == 0 {
        Seq::empty()
    } else {
        let doc = communities.last();
        invited_to(communities.drop_last(), user) + invites_for(
            doc.id,
            tables::invite_entries(doc.invites),
            user,
        )
    }
}

/// The keys of entries, each once.
pub open spec fn keys_once<V>(entries: Seq<(Uuid, V)>) -> Seq<Uuid>
    decreases entries.len(),
{
    if entries.len() == 0 {
        Seq::empty()
    } else {
        ordered::set_inserted(keys_once(entries.drop_last()), entries.last().0)
    }
}

/// Roles that say the same.
pub open spec fn same_role(a: CommunityRole, b: CommunityRole) -> bool {
    &&& a.id == b.id
    &&& a.name@ == b.name@
    &&& ordered::did_values(a.members) == ordered::did_values(b.members)
}

/// Roles that say the same, in the same order.
pub open spec fn same_roles(
    a: Seq<(RoleId, CommunityRole)>,
    b: Seq<(RoleId, CommunityRole)>,
) -> bool {
    &&& a.len() == b.len()
    &&& forall|i: int|
        0 <= i < a.len() ==> (#[trigger] a[i]).0 == b[i].0 && same_role(a[i].1, b[i].1)
}

/// Whether a community is shown as it is.
pub open spec fn shown(doc: CommunityDocument, community: Community) -> bool {
    &&& community.id == doc.id
    &&& community.name@ == doc.name@
    &&& match community.description {
        Some(d) => doc.description matches Some(e) && d@ == e@,
        None => doc.description is None,
    }
    &&& community.creator == doc.creator
    &&& community.created == doc.created
    &&& community.modified == doc.modified
    &&& ordered::did_values(community.members) == ordered::did_values(doc.members)
    &&& tables::uuid_values(community.channels) == keys_once(tables::channel_entries(doc.channels))
    &&& same_roles(tables::role_entries(community.roles), tables::role_entries(doc.roles))
    &&& tables::grant_entries(community.permissions) == tables::grant_entries(doc.permissions)
    &&& tables::uuid_values(community.invites) == keys_once(tables::invite_entries(doc.invites))
}

fn copy_roles(roles: &CommunityRoles) -> (r: CommunityRoles)
    ensures
        same_roles(tables::role_entries(r), tables::role_entries(*roles)),
{
    let ghost entries = tables::role_entries(*roles);
    let n: usize = roles_len(roles);
    let mut r = roles_new();
    let mut i: usize = 0;
    while i < n
        invariant
            entries == tables::role_entries(*roles),
            n == entries.len(),
            i <= n,
            same_roles(tables::role_entries(r), entries.take(i as int)),
        decreases n - i,
    {
        match roles_at(roles, i) {
            Some((id, role)) => {
                let ghost before = tables::role_entries(r);
                let copy = CommunityRole {
                    id: role.id,
                    name: role.name.clone(),
                    members: dids_clone(&role.members),
                };
                assert(same_role(copy, entries[i as int].1));
                roles_insert(&mut r, id, copy);
                proof {
                    assert forall|j: int| 0 <= j < before.len() implies (
                    #[trigger] before[j]).0 != id by {
                        assert(before[j].0 == entries.take(i as int)[j].0);
                        assert(entries[j].0 != id);
                    }
                    assert(!ordered::has_key(before, id));
                    let after = tables::role_entries(r);
                    assert(after == before.push((id, copy)));
                    assert forall|j: int| 0 <= j < after.len() implies (#[trigger] after[j]).0
                        == entries.take(i + 1)[j].0 && same_role(
                        after[j].1,
                        entries.take(i + 1)[j].1,
                    ) by {
                        if j < i {
                            assert(after[j] == before[j]);
                            assert(entries.take(i as int)[j] == entries[j]);
                        }
                    }
                }
            },
            None => {},
        }
        i = i + 1;
    }
    assert(entries.take(n as int) == entries);
    r
}

fn channel_ids(doc: &CommunityDocument) -> (r: IndexSet<Uuid>)
    ensures
        tables::uuid_values(r) == keys_once(tables::channel_entries(doc.channels)),
{
    let ghost entries = tables::channel_entries(doc.channels);
    let n: usize = channels_len(&doc.channels);
    let mut r = uuids_new();
    let mut i: usize = 0;
    assert(entries.take(0) == Seq::<(Uuid, CommunityChannel)>::empty());
    while i < n
        invariant
            entries == tables::channel_entries(doc.channels),
            n == entries.len(),
            i <= n,
            tables::uuid_values(r) == keys_once(entries.take(i as int)),
        decreases n - i,
    {
        assert(entries.take(i + 1).drop_last() == entries.take(i as int));
        match channels_at(&doc.channels, i) {
            Some((id, _)) => {
                uuids_insert(&mut r, id);
            },
            None => {},
        }
        i = i + 1;
    }
    assert(entries.take(n as int) == entries);
    r
}

fn invite_ids(doc: &CommunityDocument) -> (r: IndexSet<Uuid>)
    ensures
        tables::uuid_values(r) == keys_once(tables::invite_entries(doc.invites)),
{
    let ghost entries = tables::invite_entries(doc.invites);
    let n: usize = invites_len(&doc.invites);
    let mut r = uuids_new();
    let mut i: usize = 0;
    assert(entries.take(0) == Seq::<(Uuid, CommunityInvite)>::empty());
    while i < n
        invariant
            entries == tables::invite_entries(doc.invites),
            n == entries.len(),
            i <= n,
            tables::uuid_values(r) == keys_once(entries.take(i as int)),
        decreases n - i,
    {
        assert(entries.take(i + 1).drop_last() == entries.take(i as int));
        match invites_at(&doc.invites, i) {
            Some((id, _)) => {
                uuids_insert(&mut r, id);
            },
            None => {},
        }
        i = i + 1;
    }
    assert(entries.take(n as int) == entries);
    r
}

impl Community {
    /// What is shown of a community.
    pub fn of(doc: &CommunityDocument) -> (r: Community)
        ensures
            shown(*doc, r),
    {
        Community {
            id: doc.id,
            name: doc.name.clone(),
            description: copy_text(&doc.description),
            creator: doc.creator,
            created: doc.created,
            modified: doc.modified,
            members: dids_clone(&doc.members),
            channels: channel_ids(doc),
            roles: copy_roles(&doc.roles),
            permissions: grants_clone(&doc.permissions),
            invites: invite_ids(doc),
        }
    }
}

impl CommunityStore {
    /// The position of a community.
    pub fn position(&self, id: Uuid) -> (r: Option<usize>)
        ensures
            match r {
                Some(i) => {
                    &&& has_community(self.communities@, id)
                    &&& i == community_index(self.communities@, id)
                    &&& is_community_at(self.communities@, id, i as int)
                },
                None => !has_community(self.communities@, id),
            },
    {
        let mut i: usize = 0;
        while i < self.communities.len()
            invariant
                i <= self.communities@.len(),
                forall|j: int| 0 <= j < i ==> (#[trigger] self.communities@[j]).id != id,
            decreases self.communities@.len() - i,
        {
            if self.communities[i].id == id {
                proof {
                    let all = self.communities@;
                    assert(is_community_at(all, id, i as int));
                    let k = community_index(all, id);
                    assert(is_community_at(all, id, k));
                    assert(all[i as int].id == id && all[k].id == id);
                }
                return Some(i);
            }
            i = i + 1;
        }
        None
    }

    /// Makes a community. A keystore with an own key comes with it. Returns the community, and what
    /// the subscribers of the store are told.
    pub fn create_community(
        &mut self,
        id: Uuid,
        name: &str,
        now: Timestamp,
        fresh_key: Vec<u8>,
    ) -> (r: Result<(Community, RayGunEventKind), Error>)
        ensures
            match document::name_refusal(name@) {
                Some(e) => r == Err::<(Community, RayGunEventKind), Error>(e) && *final(self)
                    == *old(self),
                None => {
                    &&& r matches Ok((community, event))
                    &&& event == RayGunEventKind::CommunityCreated { community_id: id }
                    &&& *final(self) == (CommunityStore {
                        communities: final(self).communities,
                        keystores: final(self).keystores,
                        ..*old(self)
                    })
                    &&& is_added(
                        old(self).communities@,
                        final(self).communities@,
                        community,
                        id,
                        old(self).own,
                        name@,
                        now,
                    )
                    &&& final(self).keystores@.len() == old(self).keystores@.len() + 1
                    &&& final(self).keystores@.drop_last() == old(self).keystores@
                    &&& final(self).keystores@.last().id == id
                    &&& final(self).keystores@.last().keystore.keys@ == seq![
                        KeyEntry { did: old(self).own, key: fresh_key },
                    ]
                },
            },
    {
        let doc = match CommunityDocument::new(id, self.own, name, now) {
            Ok(doc) => doc,
            Err(e) => return Err(e),
        };
        let community = Community::of(&doc);
        let ghost before = self.communities@;
        match self.position(id) {
            Some(i) => {
                self.communities[i] = doc;
                assert(self.communities@ == with_community(before, doc));
            },
            None => {
                self.communities.push(doc);
                assert(self.communities@ == with_community(before, doc));
            },
        }
        let mut keystore = Keystore::new();
        keystore.insert(self.own, fresh_key);
        assert(keystore.keys@ == seq![KeyEntry { did: self.own, key: fresh_key }]);
        self.keystores.push(CommunityKeystore { id, keystore });
        assert(self.keystores@.drop_last() == old(self).keystores@);
        Ok((community, RayGunEventKind::CommunityCreated { community_id: id }))
    }

    /// A community, for those whom it is known to.
    pub fn get_community(&self, community_id: Uuid) -> (r: Result<Community, Error>)
        ensures
            if has_community(self.communities@, community_id) && self.communities@[
                community_index(self.communities@, community_id)
            ].knows(self.own) {
                r matches Ok(community) && shown(
                    self.communities@[community_index(self.communities@, community_id)],
                    community,
                )
            } else {
                r == Err::<Community, Error>(Error::InvalidCommunity)
            },
    {
        match self.position(community_id) {
            Some(i) => if self.communities[i].is_known_to(self.own) {
                Ok(Community::of(&self.communities[i]))
            } else {
                Err(Error::InvalidCommunity)
            },
            None => Err(Error::InvalidCommunity),
        }
    }

    /// Joins a community by an invite. Its subscribers are told.
    pub fn accept_community_invite(
        &mut self,
        community_id: Uuid,
        invite_id: Uuid,
        now: Timestamp,
    ) -> (r: Result<MessageEventKind, Error>)
        ensures
            if !has_community(old(self).communities@, community_id) {
                r == Err::<MessageEventKind, Error>(Error::InvalidCommunity) && *final(self)
                    == *old(self)
            } else {
                let i = community_index(old(self).communities@, community_id);
                &&& only_changed(*old(self), *final(self), i)
                &&& document::accept_invite_post(
                    old(self).communities@[i],
                    final(self).communities@[i],
                    match r {
                        Ok(_) => Ok(()),
                        Err(e) => Err(e),
                    },
                    old(self).own,
                    invite_id,
                    now,
                )
                &&& r matches Ok(event) ==> event == MessageEventKind::AcceptedCommunityInvite {
                    community_id,
                    invite_id,
                    user: old(self).own,
                }
            },
    {
        match self.position(community_id) {
            None => Err(Error::InvalidCommunity),
            Some(i) => match self.communities[i].accept_invite(self.own, invite_id, now) {
                Err(e) => Err(e),
                Ok(()) => Ok(
                    MessageEventKind::AcceptedCommunityInvite {
                        community_id,
                        invite_id,
                        user: self.own,
                    },
                ),
            },
        }
    }

    /// The communities that the own identity is a member of.
    pub fn list_communities_joined(&self) -> (r: Vec<Uuid>)
        ensures
            r@ == joined(self.communities@, self.own),
    {
        let ghost all = self.communities@;
        let mut r: Vec<Uuid> = Vec::new();
        let mut i: usize = 0;
        assert(all.take(0) == Seq::<CommunityDocument>::empty());
        while i < self.communities.len()
            invariant
                all == self.communities@,
                i <= all.len(),
                r@ == joined(all.take(i as int), self.own),
            decreases all.len() - i,
        {
            assert(all.take(i + 1).drop_last() == all.take(i as int));
            if dids_contains(&self.communities[i].members, self.own) {
                r.push(self.communities[i].id);
            }
            i = i + 1;
        }
        assert(all.take(all.len() as int) == all);
        r
    }

    /// The invites that are for the own identity alone, each with its community.
    pub fn list_communities_invited_to(&self) -> (r: Vec<(Uuid, CommunityInvite)>)
        ensures
            r@ == invited_to(self.communities@, self.own),
    {
        let ghost all = self.communities@;
        let mut r: Vec<(Uuid, CommunityInvite)> = Vec::new();
        let mut i: usize = 0;
        assert(all.take(0) == Seq::<CommunityDocument>::empty());
        while i < self.communities.len()
            invariant
                all == self.communities@,
                i <= all.len(),
                r@ == invited_to(all.take(i as int), self.own),
            decreases all.len() - i,
        {
            let ghost before = r@;
            let doc = &self.communities[i];
            let ghost entries = tables::invite_entries(doc.invites);
            let n: usize = invites_len(&doc.invites);
            let mut k: usize = 0;
            proof {
                assert(all.take(i + 1).drop_last() == all.take(i as int));
                assert(entries.take(0) == Seq::<(Uuid, CommunityInvite)>::empty());
                assert(before + invites_for(doc.id, entries.take(0), self.own) == before);
            }
            while k < n
                invariant
                    i < all.len(),
                    all == self.communities@,
                    *doc == all[i as int],
                    entries == tables::invite_entries(doc.invites),
                    n == entries.len(),
                    k <= n,
                    r@ == before + invites_for(doc.id, entries.take(k as int), self.own),
                decreases n - k,
            {
                assert(entries.take(k + 1).drop_last() == entries.take(k as int));
                match invites_at(&doc.invites, k) {
                    Some((_, invite)) => match invite.target_user {
                        Some(target) => {
                            if target == self.own {
                                r.push((doc.id, *invite));
                                assert(r@ == before + invites_for(
                                    doc.id,
                                    entries.take(k as int),
                                    self.own,
                                ).push((doc.id, *invite)));
                            }
                        },
                        None => {},
                    },
                    None => {},
                }
                k = k + 1;
            }
            assert(entries.take(n as int) == entries);
            i = i + 1;
        }
        assert(all.take(all.len() as int) == all);
        r
    }

    /// Invites one identity, or everyone.
    pub fn create_community_invite(
        &mut self,
        community_id: Uuid,
        id: Uuid,
        target_user: Option<Did>,
        expiry: Option<Timestamp>,
        now: Timestamp,
    ) -> (r: Result<CommunityInvite, Error>)
        ensures
            if !has_community(old(self).communities@, community_id) {
                r == Err::<CommunityInvite, Error>(Error::InvalidCommunity) && *final(self) == *old(self)
            } else {
                let i = community_index(old(self).communities@, community_id);
                &&& only_changed(*old(self), *final(self), i)
                &&& document::create_invite_post(
                    old(self).communities@[i],
                    final(self).communities@[i],
                    r,
                    old(self).own, id, target_user, expiry, now,
                )
            },
    {
        match self.position(community_id) {
            Some(i) => self.communities[i].create_invite(self.own, id, target_user, expiry, now),
            None => Err(Error::InvalidCommunity),
        }
    }

    /// Takes an invite back.
    pub fn delete_community_invite(
        &mut self,
        community_id: Uuid,
        id: Uuid,
    ) -> (r: Result<(), Error>)
        ensures
            if !has_community(old(self).communities@, community_id) {
                r == Err::<(), Error>(Error::InvalidCommunity) && *final(self) == *old(self)
            } else {
                let i = community_index(old(self).communities@, community_id);
                &&& only_changed(*old(self), *final(self), i)
                &&& document::delete_invite_post(
                    old(self).communities@[i],
                    final(self).communities@[i],
                    r,
                    old(self).own, id,
                )
            },
    {
        match self.position(community_id) {
            Some(i) => self.communities[i].delete_invite(self.own, id),
            None => Err(Error::InvalidCommunity),
        }
    }

    /// An invite.
    pub fn get_community_invite(
        &self,
        community_id: Uuid,
        id: Uuid,
    ) -> (r: Result<CommunityInvite, Error>)
        ensures
            if !has_community(self.communities@, community_id) {
                r == Err::<CommunityInvite, Error>(Error::InvalidCommunity)
            } else {
                let i = community_index(self.communities@, community_id);
                document::get_invite_post(self.communities@[i], r, self.own, id)
            },
    {
        match self.position(community_id) {
            Some(i) => self.communities[i].get_invite(self.own, id),
            None => Err(Error::InvalidCommunity),
        }
    }

    /// Changes whom an invite is for and when it ends.
    pub fn edit_community_invite(
        &mut self,
        community_id: Uuid,
        id: Uuid,
        edited: CommunityInvite,
    ) -> (r: Result<(), Error>)
        ensures
            if !has_community(old(self).communities@, community_id) {
                r == Err::<(), Error>(Error::InvalidCommunity) && *final(self) == *old(self)
            } else {
                let i = community_index(old(self).communities@, community_id);
                &&& only_changed(*old(self), *final(self), i)
                &&& document::edit_invite_post(
                    old(self).communities@[i],
                    final(self).communities@[i],
                    r,
                    old(self).own, id, edited,
                )
            },
    {
        match self.position(community_id) {
            Some(i) => self.communities[i].edit_invite(self.own, id, edited),
            None => Err(Error::InvalidCommunity),
        }
    }

    /// Opens a channel.
    pub fn create_community_channel(
        &mut self,
        community_id: Uuid,
        id: Uuid,
        name: &str,
        channel_type: CommunityChannelType,
        now: Timestamp,
    ) -> (r: Result<CommunityChannel, Error>)
        ensures
            if !has_community(old(self).communities@, community_id) {
                r == Err::<CommunityChannel, Error>(Error::InvalidCommunity) && *final(self)
                    == *old(self)
            } else {
                let i = community_index(old(self).communities@, community_id);
                &&& only_changed(*old(self), *final(self), i)
                &&& document::create_channel_post(
                    old(self).communities@[i],
                    final(self).communities@[i],
                    r,
                    old(self).own, id, name, channel_type, now, old(self).max_channels,
                )
            },
    {
        match self.position(community_id) {
            Some(i) => self.communities[i].create_channel(self.own, id, name, channel_type, now, self.max_channels),
            None => Err(Error::InvalidCommunity),
        }
    }

    /// Closes a channel.
    pub fn delete_community_channel(
        &mut self,
        community_id: Uuid,
        id: Uuid,
    ) -> (r: Result<(), Error>)
        ensures
            if !has_community(old(self).communities@, community_id) {
                r == Err::<(), Error>(Error::InvalidCommunity) && *final(self) == *old(self)
            } else {
                let i = community_index(old(self).communities@, community_id);
                &&& only_changed(*old(self), *final(self), i)
                &&& document::delete_channel_post(
                    old(self).communities@[i],
                    final(self).communities@[i],
                    r,
                    old(self).own, id,
                )
            },
    {
        match self.position(community_id) {
            Some(i) => self.communities[i].delete_channel(self.own, id),
            None => Err(Error::InvalidCommunity),
        }
    }

    /// A channel, for those who may see it.
    pub fn get_community_channel(
        &self,
        community_id: Uuid,
        id: Uuid,
    ) -> (r: Result<&CommunityChannel, Error>)
        ensures
            if !has_community(self.communities@, community_id) {
                r == Err::<&CommunityChannel, Error>(Error::InvalidCommunity)
            } else {
                let i = community_index(self.communities@, community_id);
                document::get_channel_post(self.communities@[i], r, self.own, id)
            },
    {
        match self.position(community_id) {
            Some(i) => self.communities[i].get_channel(self.own, id),
            None => Err(Error::InvalidCommunity),
        }
    }

    /// Renames a community.
    pub fn edit_community_name(
        &mut self,
        community_id: Uuid,
        name: &str,
    ) -> (r: Result<(), Error>)
        ensures
            if !has_community(old(self).communities@, community_id) {
                r == Err::<(), Error>(Error::InvalidCommunity) && *final(self) == *old(self)
            } else {
                let i = community_index(old(self).communities@, community_id);
                &&& only_changed(*old(self), *final(self), i)
                &&& document::edit_name_post(
                    old(self).communities@[i],
                    final(self).communities@[i],
                    r,
                    old(self).own, name,
                )
            },
    {
        match self.position(community_id) {
            Some(i) => self.communities[i].edit_name(self.own, name),
            None => Err(Error::InvalidCommunity),
        }
    }

    /// Describes a community.
    pub fn edit_community_description(
        &mut self,
        community_id: Uuid,
        description: Option<String>,
    ) -> (r: Result<(), Error>)
        ensures
            if !has_community(old(self).communities@, community_id) {
                r == Err::<(), Error>(Error::InvalidCommunity) && *final(self) == *old(self)
            } else {
                let i = community_index(old(self).communities@, community_id);
                &&& only_changed(*old(self), *final(self), i)
                &&& document::edit_description_post(
                    old(self).communities@[i],
                    final(self).communities@[i],
                    r,
                    old(self).own, description,
                )
            },
    {
        match self.position(community_id) {
            Some(i) => self.communities[i].edit_description(self.own, description),
            None => Err(Error::InvalidCommunity),
        }
    }

    /// Makes a role that nobody holds yet.
    pub fn create_community_role(
        &mut self,
        community_id: Uuid,
        id: RoleId,
        name: &str,
    ) -> (r: Result<CommunityRole, Error>)
        ensures
            if !has_community(old(self).communities@, community_id) {
                r == Err::<CommunityRole, Error>(Error::InvalidCommunity) && *final(self)
                    == *old(self)
            } else {
                let i = community_index(old(self).communities@, community_id);
                &&& only_changed(*old(self), *final(self), i)
                &&& document::create_role_post(
                    old(self).communities@[i],
                    final(self).communities@[i],
                    r,
                    old(self).own, id, name,
                )
            },
    {
        match self.position(community_id) {
            Some(i) => self.communities[i].create_role(self.own, id, name),
            None => Err(Error::InvalidCommunity),
        }
    }

    /// A role.
    pub fn get_community_role(
        &self,
        community_id: Uuid,
        id: RoleId,
    ) -> (r: Result<&CommunityRole, Error>)
        ensures
            if !has_community(self.communities@, community_id) {
                r == Err::<&CommunityRole, Error>(Error::InvalidCommunity)
            } else {
                let i = community_index(self.communities@, community_id);
                document::get_role_post(self.communities@[i], r, self.own, id)
            },
    {
        match self.position(community_id) {
            Some(i) => self.communities[i].get_role(self.own, id),
            None => Err(Error::InvalidCommunity),
        }
    }

    /// Gives a role to an identity.
    pub fn grant_community_role(
        &mut self,
        community_id: Uuid,
        id: RoleId,
        member: Did,
    ) -> (r: Result<(), Error>)
        ensures
            if !has_community(old(self).communities@, community_id) {
                r == Err::<(), Error>(Error::InvalidCommunity) && *final(self) == *old(self)
            } else {
                let i = community_index(old(self).communities@, community_id);
                &&& only_changed(*old(self), *final(self), i)
                &&& document::grant_role_post(
                    old(self).communities@[i],
                    final(self).communities@[i],
                    r,
                    old(self).own, id, member,
                )
            },
    {
        match self.position(community_id) {
            Some(i) => self.communities[i].grant_role(self.own, id, member),
            None => Err(Error::InvalidCommunity),
        }
    }

    /// Renames a role.
    pub fn edit_community_role_name(
        &mut self,
        community_id: Uuid,
        id: RoleId,
        name: String,
    ) -> (r: Result<(), Error>)
        ensures
            if !has_community(old(self).communities@, community_id) {
                r == Err::<(), Error>(Error::InvalidCommunity) && *final(self) == *old(self)
            } else {
                let i = community_index(old(self).communities@, community_id);
                &&& only_changed(*old(self), *final(self), i)
                &&& document::edit_role_name_post(
                    old(self).communities@[i],
                    final(self).communities@[i],
                    r,
                    old(self).own, id, name,
                )
            },
    {
        match self.position(community_id) {
            Some(i) => self.communities[i].edit_role_name(self.own, id, name),
            None => Err(Error::InvalidCommunity),
        }
    }

    /// Puts other roles in place of all.
    pub fn edit_community_roles(
        &mut self,
        community_id: Uuid,
        roles: CommunityRoles,
    ) -> (r: Result<(), Error>)
        ensures
            if !has_community(old(self).communities@, community_id) {
                r == Err::<(), Error>(Error::InvalidCommunity) && *final(self) == *old(self)
            } else {
                let i = community_index(old(self).communities@, community_id);
                &&& only_changed(*old(self), *final(self), i)
                &&& document::edit_roles_post(
                    old(self).communities@[i],
                    final(self).communities@[i],
                    r,
                    old(self).own, roles,
                )
            },
    {
        match self.position(community_id) {
            Some(i) => self.communities[i].edit_roles(self.own, roles),
            None => Err(Error::InvalidCommunity),
        }
    }

    /// Grants a permission to a role.
    pub fn grant_community_permission(
        &mut self,
        community_id: Uuid,
        permission: CommunityPermission,
        role: RoleId,
    ) -> (r: Result<(), Error>)
        ensures
            if !has_community(old(self).communities@, community_id) {
                r == Err::<(), Error>(Error::InvalidCommunity) && *final(self) == *old(self)
            } else {
                let i = community_index(old(self).communities@, community_id);
                &&& only_changed(*old(self), *final(self), i)
                &&& document::grant_permission_post(
                    old(self).communities@[i],
                    final(self).communities@[i],
                    r,
                    old(self).own, permission, role,
                )
            },
    {
        match self.position(community_id) {
            Some(i) => self.communities[i].grant_permission(self.own, permission, role),
            None => Err(Error::InvalidCommunity),
        }
    }

    /// Puts other permissions in place of all.
    pub fn edit_community_permissions(
        &mut self,
        community_id: Uuid,
        permissions: CommunityPermissions,
    ) -> (r: Result<(), Error>)
        ensures
            if !has_community(old(self).communities@, community_id) {
                r == Err::<(), Error>(Error::InvalidCommunity) && *final(self) == *old(self)
            } else {
                let i = community_index(old(self).communities@, community_id);
                &&& only_changed(*old(self), *final(self), i)
                &&& document::edit_permissions_post(
                    old(self).communities@[i],
                    final(self).communities@[i],
                    r,
                    old(self).own, permissions,
                )
            },
    {
        match self.position(community_id) {
            Some(i) => self.communities[i].edit_permissions(self.own, permissions),
            None => Err(Error::InvalidCommunity),
        }
    }

    /// Takes a member out.
    pub fn remove_community_member(
        &mut self,
        community_id: Uuid,
        member: Did,
    ) -> (r: Result<(), Error>)
        ensures
            if !has_community(old(self).communities@, community_id) {
                r == Err::<(), Error>(Error::InvalidCommunity) && *final(self) == *old(self)
            } else {
                let i = community_index(old(self).communities@, community_id);
                &&& only_changed(*old(self), *final(self), i)
                &&& document::remove_member_post(
                    old(self).communities@[i],
                    final(self).communities@[i],
                    r,
                    old(self).own, member,
                )
            },
    {
        match self.position(community_id) {
            Some(i) => self.communities[i].remove_member(self.own, member),
            None => Err(Error::InvalidCommunity),
        }
    }

    /// Renames a channel.
    pub fn edit_community_channel_name(
        &mut self,
        community_id: Uuid,
        id: Uuid,
        name: &str,
    ) -> (r: Result<(), Error>)
        ensures
            if !has_community(old(self).communities@, community_id) {
                r == Err::<(), Error>(Error::InvalidCommunity) && *final(self) == *old(self)
            } else {
                let i = community_index(old(self).communities@, community_id);
                &&& only_changed(*old(self), *final(self), i)
                &&& document::edit_channel_name_post(
                    old(self).communities@[i],
                    final(self).communities@[i],
                    r,
                    old(self).own, id, name,
                )
            },
    {
        match self.position(community_id) {
            Some(i) => self.communities[i].edit_channel_name(self.own, id, name),
            None => Err(Error::InvalidCommunity),
        }
    }

    /// Describes a channel.
    pub fn edit_community_channel_description(
        &mut self,
        community_id: Uuid,
        id: Uuid,
        description: Option<String>,
    ) -> (r: Result<(), Error>)
        ensures
            if !has_community(old(self).communities@, community_id) {
                r == Err::<(), Error>(Error::InvalidCommunity) && *final(self) == *old(self)
            } else {
                let i = community_index(old(self).communities@, community_id);
                &&& only_changed(*old(self), *final(self), i)
                &&& document::edit_channel_description_post(
                    old(self).communities@[i],
                    final(self).communities@[i],
                    r,
                    old(self).own, id, description,
                )
            },
    {
        match self.position(community_id) {
            Some(i) => self.communities[i].edit_channel_description(self.own, id, description),
            None => Err(Error::InvalidCommunity),
        }
    }

    /// Puts other permissions in place of all of a channel.
    pub fn edit_community_channel_permissions(
        &mut self,
        community_id: Uuid,
        id: Uuid,
        permissions: CommunityChannelPermissions,
    ) -> (r: Result<(), Error>)
        ensures
            if !has_community(old(self).communities@, community_id) {
                r == Err::<(), Error>(Error::InvalidCommunity) && *final(self) == *old(self)
            } else {
                let i = community_index(old(self).communities@, community_id);
                &&& only_changed(*old(self), *final(self), i)
                &&& document::edit_channel_permissions_post(
                    old(self).communities@[i],
                    final(self).communities@[i],
                    r,
                    old(self).own, id, permissions,
                )
            },
    {
        match self.position(community_id) {
            Some(i) => self.communities[i].edit_channel_permissions(self.own, id, permissions),
            None => Err(Error::InvalidCommunity),
        }
    }

    /// Lets everyone have a permission in a channel.
    pub fn grant_community_channel_permission_for_all(
        &mut self,
        community_id: Uuid,
        id: Uuid,
        permission: CommunityChannelPermission,
    ) -> (r: Result<(), Error>)
        ensures
            if !has_community(old(self).communities@, community_id) {
                r == Err::<(), Error>(Error::InvalidCommunity) && *final(self) == *old(self)
            } else {
                let i = community_index(old(self).communities@, community_id);
                &&& only_changed(*old(self), *final(self), i)
                &&& document::grant_channel_permission_for_all_post(
                    old(self).communities@[i],
                    final(self).communities@[i],
                    r,
                    old(self).own, id, permission,
                )
            },
    {
        match self.position(community_id) {
            Some(i) => self.communities[i].grant_channel_permission_for_all(self.own, id, permission),
            None => Err(Error::InvalidCommunity),
        }
    }

    /// Lets nobody but the creator have a permission in a channel.
    pub fn revoke_community_channel_permission_for_all(
        &mut self,
        community_id: Uuid,
        id: Uuid,
        permission: CommunityChannelPermission,
    ) -> (r: Result<(), Error>)
        ensures
            if !has_community(old(self).communities@, community_id) {
                r == Err::<(), Error>(Error::InvalidCommunity) && *final(self) == *old(self)
            } else {
                let i = community_index(old(self).communities@, community_id);
                &&& only_changed(*old(self), *final(self), i)
                &&& document::revoke_channel_permission_for_all_post(
                    old(self).communities@[i],
                    final(self).communities@[i],
                    r,
                    old(self).own, id, permission,
                )
            },
    {
        match self.position(community_id) {
            Some(i) => self.communities[i].revoke_channel_permission_for_all(self.own, id, permission),
            None => Err(Error::InvalidCommunity),
        }
    }

}

} // verus!
