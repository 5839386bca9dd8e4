//! The document of one community, and the rules by which its members change it.
use vstd::prelude::*;
use indexmap::{IndexMap, IndexSet};
use crate::error::{Error, LengthOf};
use crate::ids::{Did, Timestamp, Uuid};
use crate::ordered::{self, dids_contains, dids_insert, dids_new, dids_swap_remove};
use crate::text::{self, trim};
use super::tables::{
    self, channels_get, channels_get_mut, channels_insert, channels_len, channels_new,
    channels_swap_remove, grants_get, grants_insert, grants_new, grants_swap_remove, invites_at,
    invites_get, invites_insert, invites_len, invites_new, invites_swap_remove, roles_get,
    roles_get_mut, roles_insert, roles_new, uuids_at, uuids_clone, uuids_insert, uuids_len,
    uuids_new,
};
use super::{
    CommunityChannel, CommunityChannelPermission, CommunityChannelPermissions,
    CommunityChannelType, CommunityInvite, CommunityPermission, CommunityPermissions,
    CommunityRole, CommunityRoles, Dids, RoleId,
};

verus! {

/// The length of the longest name of a community.
pub const MAX_COMMUNITY_NAME: usize = 255;

pub struct CommunityDocument {
    pub id: Uuid,
    pub name: String,
    pub description: Option<String>,
    pub creator: Did,
    pub created: Timestamp,
    pub modified: Timestamp,
    pub members: Dids,
    pub channels: IndexMap<u128, CommunityChannel>,
    pub roles: CommunityRoles,
    pub permissions: CommunityPermissions,
    pub invites: IndexMap<u128, CommunityInvite>,
}

/// Why a community is not made under a name.
pub open spec fn name_refusal(name: Seq<char>) -> Option<Error> {
    let length = text::byte_length(text::trimmed(name));
    if length < 1 || length > MAX_COMMUNITY_NAME {
        Some(
            Error::InvalidLength {
                context: LengthOf::Name,
                current: length,
                minimum: Some(1),
                maximum: Some(MAX_COMMUNITY_NAME),
            },
        )
    } else {
        None
    }
}

/// Whether an invite is for an identity: for it alone, or for everyone.
pub open spec fn is_for(invite: CommunityInvite, user: Did) -> bool {
    match invite.target_user {
        Some(target) => target == user,
        None => true,
    }
}

/// Why an invite is not accepted.
pub open spec fn accept_refusal(
    doc: CommunityDocument,
    user: Did,
    invite_id: Uuid,
    now: Timestamp,
) -> Option<Error> {
    if !doc.knows(user) {
        Some(Error::InvalidCommunity)
    } else {
        match ordered::lookup(tables::invite_entries(doc.invites), invite_id) {
            None => Some(Error::CommunityInviteDoesntExist),
            Some(invite) => if !is_for(invite, user) {
                Some(Error::CommunityInviteIncorrectUser)
            } else {
                match invite.expiry {
                    Some(expiry) => if expiry < now {
                        Some(Error::CommunityInviteExpired)
                    } else {
                        None
                    },
                    None => None,
                }
            },
        }
    }
}

/// A new community.
pub open spec fn is_new(
    doc: CommunityDocument,
    id: Uuid,
    creator: Did,
    name: Seq<char>,
    now: Timestamp,
) -> bool {
    &&& doc.id == id
    &&& doc.name@ == text::trimmed(name)
    &&& doc.description is None
    &&& doc.creator == creator
    &&& doc.created == now
    &&& doc.modified == now
    &&& ordered::did_values(doc.members) == seq![creator]
    &&& tables::channel_entries(doc.channels).len() == 0
    &&& tables::role_entries(doc.roles).len() == 0
    &&& tables::grant_entries(doc.permissions).len() == 0
    &&& tables::invite_entries(doc.invites).len() == 0
}

/// Whether one of the roles of a set is held by an identity.
pub open spec fn holds_one(
    roles: Seq<(RoleId, CommunityRole)>,
    granted: Seq<RoleId>,
    user: Did,
) -> bool {
    exists|i: int| 0 <= i < granted.len() && holds(roles, #[trigger] granted[i], user)
}

/// Whether a role is held by an identity.
pub open spec fn holds(roles: Seq<(RoleId, CommunityRole)>, id: RoleId, user: Did) -> bool {
    match ordered::lookup(roles, id) {
        Some(role) => ordered::did_values(role.members).contains(user),
        None => false,
    }
}

/// The roles that have each permission, after one more was granted one.
pub open spec fn granted(
    grants: Seq<(u8, Seq<RoleId>)>,
    code: u8,
    role: RoleId,
) -> Seq<(u8, Seq<RoleId>)> {
    let roles = match ordered::lookup(grants, code) {
        Some(set) => set,
        None => Seq::empty(),
    };
    ordered::inserted(grants, code, ordered::set_inserted(roles, role))
}

/// What `CommunityDocument::create_invite` does.
pub open spec fn create_invite_post(
    before: CommunityDocument,
    after: CommunityDocument,
    r: Result<CommunityInvite, Error>,
    user: Did,
    id: Uuid,
    target_user: Option<Did>,
    expiry: Option<Timestamp>,
    now: Timestamp,
) -> bool {
    match before.refusal(user, CommunityPermission::ManageInvites) {
        Some(e) => r == Err::<CommunityInvite, Error>(e) && after == before,
        None => {
            let invite = CommunityInvite { id, target_user, created: now, expiry };
            &&& r == Ok::<CommunityInvite, Error>(invite)
            &&& after == (CommunityDocument {
                invites: after.invites,
                ..before
            })
            &&& tables::invite_entries(after.invites) == ordered::inserted(
                tables::invite_entries(before.invites),
                id,
                invite,
            )
        },
    }
}

/// What `CommunityDocument::delete_invite` does.
pub open spec fn delete_invite_post(
    before: CommunityDocument,
    after: CommunityDocument,
    r: Result<(), Error>,
    user: Did,
    id: Uuid,
) -> bool {
    match before.refusal(user, CommunityPermission::ManageInvites) {
        Some(e) => r == Err::<(), Error>(e) && after == before,
        None => {
            &&& r is Ok
            &&& after == (CommunityDocument {
                invites: after.invites,
                ..before
            })
            &&& tables::invite_entries(after.invites) == ordered::swap_removed(
                tables::invite_entries(before.invites),
                id,
            )
        },
    }
}

/// What `CommunityDocument::get_invite` returns.
pub open spec fn get_invite_post(
    doc: CommunityDocument,
    r: Result<CommunityInvite, Error>,
    user: Did,
    id: Uuid,
) -> bool {
    r == (if !doc.knows(user) {
        Err::<CommunityInvite, Error>(Error::InvalidCommunity)
    } else {
        match ordered::lookup(tables::invite_entries(doc.invites), id) {
            Some(invite) => Ok(invite),
            None => Err(Error::CommunityInviteDoesntExist),
        }
    })
}

/// What `CommunityDocument::accept_invite` does.
pub open spec fn accept_invite_post(
    before: CommunityDocument,
    after: CommunityDocument,
    r: Result<(), Error>,
    user: Did,
    id: Uuid,
    now: Timestamp,
) -> bool {
    match accept_refusal(before, user, id, now) {
        Some(e) => r == Err::<(), Error>(e) && after == before,
        None => {
            &&& r is Ok
            &&& after == (CommunityDocument {
                members: after.members,
                ..before
            })
            &&& ordered::did_values(after.members) == ordered::set_inserted(
                ordered::did_values(before.members),
                user,
            )
        },
    }
}

/// What `CommunityDocument::edit_invite` does.
pub open spec fn edit_invite_post(
    before: CommunityDocument,
    after: CommunityDocument,
    r: Result<(), Error>,
    user: Did,
    id: Uuid,
    edited: CommunityInvite,
) -> bool {
    match before.refusal(user, CommunityPermission::ManageInvites) {
        Some(e) => r == Err::<(), Error>(e) && after == before,
        None => match ordered::lookup(tables::invite_entries(before.invites), id) {
            None => r == Err::<(), Error>(Error::CommunityInviteDoesntExist)
                && after == before,
            Some(invite) => {
                &&& r is Ok
                &&& after == (CommunityDocument {
                    invites: after.invites,
                    ..before
                })
                &&& tables::invite_entries(after.invites) == ordered::inserted(
                    tables::invite_entries(before.invites),
                    id,
                    (CommunityInvite {
                        target_user: edited.target_user,
                        expiry: edited.expiry,
                        ..invite
                    }),
                )
            },
        },
    }
}

/// What `CommunityDocument::create_channel` does.
pub open spec fn create_channel_post(
    before: CommunityDocument,
    after: CommunityDocument,
    r: Result<CommunityChannel, Error>,
    user: Did,
    id: Uuid,
    name: &str,
    channel_type: CommunityChannelType,
    now: Timestamp,
    max_channels: usize,
) -> bool {
    match before.refusal(user, CommunityPermission::ManageChannels) {
        Some(e) => r == Err::<CommunityChannel, Error>(e) && after == before,
        None => if tables::channel_entries(before.channels).len() >= max_channels {
            r == Err::<CommunityChannel, Error>(Error::CommunityChannelLimitReached) && after
                == before
        } else {
            &&& r matches Ok(made) && is_new_channel(made, id, name@, channel_type, now)
            &&& after == (CommunityDocument {
                channels: after.channels,
                ..before
            })
            &&& exists|channel: CommunityChannel|
                {
                    &&& tables::channel_entries(after.channels)
                        == #[trigger] ordered::inserted(
                        tables::channel_entries(before.channels),
                        id,
                        channel,
                    )
                    &&& is_new_channel(channel, id, name@, channel_type, now)
                }
        },
    }
}

/// What `CommunityDocument::delete_channel` does.
pub open spec fn delete_channel_post(
    before: CommunityDocument,
    after: CommunityDocument,
    r: Result<(), Error>,
    user: Did,
    id: Uuid,
) -> bool {
    match before.refusal(user, CommunityPermission::ManageChannels) {
        Some(e) => r == Err::<(), Error>(e) && after == before,
        None => {
            &&& r is Ok
            &&& after == (CommunityDocument {
                channels: after.channels,
                ..before
            })
            &&& tables::channel_entries(after.channels) == ordered::swap_removed(
                tables::channel_entries(before.channels),
                id,
            )
        },
    }
}

/// What `CommunityDocument::get_channel` returns.
pub open spec fn get_channel_post(
    doc: CommunityDocument,
    r: Result<&CommunityChannel, Error>,
    user: Did,
    id: Uuid,
) -> bool {
    if !doc.knows(user) {
        r == Err::<&CommunityChannel, Error>(Error::InvalidCommunity)
    } else {
        match ordered::lookup(tables::channel_entries(doc.channels), id) {
            None => r == Err::<&CommunityChannel, Error>(
                Error::CommunityChannelDoesntExist,
            ),
            Some(channel) => if doc.permits_in(
                channel,
                user,
                CommunityChannelPermission::ViewChannel,
            ) {
                r matches Ok(c) && *c == channel
            } else {
                r == Err::<&CommunityChannel, Error>(Error::Unauthorized)
            },
        }
    }
}

/// What `CommunityDocument::edit_name` does.
pub open spec fn edit_name_post(
    before: CommunityDocument,
    after: CommunityDocument,
    r: Result<(), Error>,
    user: Did,
    name: &str,
) -> bool {
    match before.refusal(user, CommunityPermission::EditInfo) {
        Some(e) => r == Err::<(), Error>(e) && after == before,
        None => {
            &&& r is Ok
            &&& after == (CommunityDocument {
                name: after.name,
                ..before
            })
            &&& after.name@ == name@
        },
    }
}

/// What `CommunityDocument::edit_description` does.
pub open spec fn edit_description_post(
    before: CommunityDocument,
    after: CommunityDocument,
    r: Result<(), Error>,
    user: Did,
    description: Option<String>,
) -> bool {
    match before.refusal(user, CommunityPermission::EditInfo) {
        Some(e) => r == Err::<(), Error>(e) && after == before,
        None => r is Ok && after == (CommunityDocument {
            description,
            ..before
        }),
    }
}

/// A role that nobody holds yet.
pub open spec fn is_new_role(role: CommunityRole, id: RoleId, name: Seq<char>) -> bool {
    &&& role.id == id
    &&& role.name@ == name
    &&& ordered::did_values(role.members).len() == 0
}

/// What `CommunityDocument::create_role` does.
pub open spec fn create_role_post(
    before: CommunityDocument,
    after: CommunityDocument,
    r: Result<CommunityRole, Error>,
    user: Did,
    id: RoleId,
    name: &str,
) -> bool {
    match before.refusal(user, CommunityPermission::ManageRoles) {
        Some(e) => r == Err::<CommunityRole, Error>(e) && after == before,
        None => {
            &&& r matches Ok(made) && is_new_role(made, id, name@)
            &&& after == (CommunityDocument {
                roles: after.roles,
                ..before
            })
            &&& exists|role: CommunityRole|
                {
                    &&& tables::role_entries(after.roles)
                        == #[trigger] ordered::inserted(
                        tables::role_entries(before.roles),
                        id,
                        role,
                    )
                    &&& is_new_role(role, id, name@)
                }
        },
    }
}

/// What `CommunityDocument::get_role` returns.
pub open spec fn get_role_post(
    doc: CommunityDocument,
    r: Result<&CommunityRole, Error>,
    user: Did,
    id: RoleId,
) -> bool {
    if !doc.knows(user) {
        r == Err::<&CommunityRole, Error>(Error::InvalidCommunity)
    } else {
        match ordered::lookup(tables::role_entries(doc.roles), id) {
            None => r == Err::<&CommunityRole, Error>(Error::CommunityRoleDoesntExist),
            Some(role) => r matches Ok(found) && *found == role,
        }
    }
}

/// What `CommunityDocument::grant_role` does.
pub open spec fn grant_role_post(
    before: CommunityDocument,
    after: CommunityDocument,
    r: Result<(), Error>,
    user: Did,
    id: RoleId,
    member: Did,
) -> bool {
    match before.refusal(user, CommunityPermission::ManageRoles) {
        Some(e) => r == Err::<(), Error>(e) && after == before,
        None => match ordered::lookup(tables::role_entries(before.roles), id) {
            None => r == Err::<(), Error>(Error::CommunityRoleDoesntExist) && after
                == before,
            Some(role) => {
                &&& r is Ok
                &&& after == (CommunityDocument {
                    roles: after.roles,
                    ..before
                })
                &&& exists|changed: CommunityRole|
                    {
                        &&& tables::role_entries(after.roles)
                            == #[trigger] ordered::inserted(
                            tables::role_entries(before.roles),
                            id,
                            changed,
                        )
                        &&& changed == (CommunityRole { members: changed.members, ..role })
                        &&& ordered::did_values(changed.members) == ordered::set_inserted(
                            ordered::did_values(role.members),
                            member,
                        )
                    }
            },
        },
    }
}

/// What `CommunityDocument::edit_role_name` does.
pub open spec fn edit_role_name_post(
    before: CommunityDocument,
    after: CommunityDocument,
    r: Result<(), Error>,
    user: Did,
    id: RoleId,
    name: String,
) -> bool {
    match before.refusal(user, CommunityPermission::ManageRoles) {
        Some(e) => r == Err::<(), Error>(e) && after == before,
        None => match ordered::lookup(tables::role_entries(before.roles), id) {
            None => r == Err::<(), Error>(Error::CommunityRoleDoesntExist) && after
                == before,
            Some(role) => {
                &&& r is Ok
                &&& after == (CommunityDocument {
                    roles: after.roles,
                    ..before
                })
                &&& tables::role_entries(after.roles) == ordered::inserted(
                    tables::role_entries(before.roles),
                    id,
                    (CommunityRole { name, ..role }),
                )
            },
        },
    }
}

/// What `CommunityDocument::edit_roles` does.
pub open spec fn edit_roles_post(
    before: CommunityDocument,
    after: CommunityDocument,
    r: Result<(), Error>,
    user: Did,
    roles: CommunityRoles,
) -> bool {
    match before.refusal(user, CommunityPermission::ManageRoles) {
        Some(e) => r == Err::<(), Error>(e) && after == before,
        None => r is Ok && after == (CommunityDocument { roles, ..before }),
    }
}

/// What `CommunityDocument::grant_permission` does.
pub open spec fn grant_permission_post(
    before: CommunityDocument,
    after: CommunityDocument,
    r: Result<(), Error>,
    user: Did,
    permission: CommunityPermission,
    role: RoleId,
) -> bool {
    match before.refusal(user, CommunityPermission::ManagePermissions) {
        Some(e) => r == Err::<(), Error>(e) && after == before,
        None => {
            &&& r is Ok
            &&& after == (CommunityDocument {
                permissions: after.permissions,
                ..before
            })
            &&& tables::grant_entries(after.permissions) == granted(
                tables::grant_entries(before.permissions),
                permission.spec_code(),
                role,
            )
        },
    }
}

/// What `CommunityDocument::edit_permissions` does.
pub open spec fn edit_permissions_post(
    before: CommunityDocument,
    after: CommunityDocument,
    r: Result<(), Error>,
    user: Did,
    permissions: CommunityPermissions,
) -> bool {
    match before.refusal(user, CommunityPermission::ManagePermissions) {
        Some(e) => r == Err::<(), Error>(e) && after == before,
        None => r is Ok && after == (CommunityDocument {
            permissions,
            ..before
        }),
    }
}

/// What `CommunityDocument::remove_member` does.
pub open spec fn remove_member_post(
    before: CommunityDocument,
    after: CommunityDocument,
    r: Result<(), Error>,
    user: Did,
    member: Did,
) -> bool {
    match before.refusal(user, CommunityPermission::ManageMembers) {
        Some(e) => r == Err::<(), Error>(e) && after == before,
        None => {
            &&& r is Ok
            &&& after == (CommunityDocument {
                members: after.members,
                ..before
            })
            &&& ordered::did_values(after.members) == ordered::set_swap_removed(
                ordered::did_values(before.members),
                member,
            )
        },
    }
}

/// What `CommunityDocument::edit_channel_name` does.
pub open spec fn edit_channel_name_post(
    before: CommunityDocument,
    after: CommunityDocument,
    r: Result<(), Error>,
    user: Did,
    id: Uuid,
    name: &str,
) -> bool {
    match before.channel_refusal(user, CommunityPermission::ManageChannels, id) {
        Some(e) => r == Err::<(), Error>(e) && after == before,
        None => {
            &&& r is Ok
            &&& is_channel_changed(
                before,
                after,
                id,
                |before: CommunityChannel, after: CommunityChannel|
                    after == (CommunityChannel { name: after.name, ..before })
                        && after.name@ == name@,
            )
        },
    }
}

/// What `CommunityDocument::edit_channel_description` does.
pub open spec fn edit_channel_description_post(
    before: CommunityDocument,
    after: CommunityDocument,
    r: Result<(), Error>,
    user: Did,
    id: Uuid,
    description: Option<String>,
) -> bool {
    match before.channel_refusal(user, CommunityPermission::ManageChannels, id) {
        Some(e) => r == Err::<(), Error>(e) && after == before,
        None => {
            &&& r is Ok
            &&& is_channel_changed(
                before,
                after,
                id,
                |before: CommunityChannel, after: CommunityChannel|
                    after == (CommunityChannel { description, ..before }),
            )
        },
    }
}

/// What `CommunityDocument::edit_channel_permissions` does.
pub open spec fn edit_channel_permissions_post(
    before: CommunityDocument,
    after: CommunityDocument,
    r: Result<(), Error>,
    user: Did,
    id: Uuid,
    permissions: CommunityChannelPermissions,
) -> bool {
    match before.channel_refusal(user, CommunityPermission::ManagePermissions, id) {
        Some(e) => r == Err::<(), Error>(e) && after == before,
        None => {
            &&& r is Ok
            &&& is_channel_changed(
                before,
                after,
                id,
                |before: CommunityChannel, after: CommunityChannel|
                    after == (CommunityChannel { permissions, ..before }),
            )
        },
    }
}

/// What `CommunityDocument::grant_channel_permission_for_all` does.
pub open spec fn grant_channel_permission_for_all_post(
    before: CommunityDocument,
    after: CommunityDocument,
    r: Result<(), Error>,
    user: Did,
    id: Uuid,
    permission: CommunityChannelPermission,
) -> bool {
    match before.channel_refusal(user, CommunityPermission::ManagePermissions, id) {
        Some(e) => r == Err::<(), Error>(e) && after == before,
        None => {
            &&& r is Ok
            &&& is_channel_changed(
                before,
                after,
                id,
                |before: CommunityChannel, after: CommunityChannel|
                    after == (CommunityChannel { permissions: after.permissions, ..before })
                        && tables::grant_entries(after.permissions)
                        == ordered::swap_removed(
                        tables::grant_entries(before.permissions),
                        permission.spec_code(),
                    ),
            )
        },
    }
}

/// What `CommunityDocument::revoke_channel_permission_for_all` does.
pub open spec fn revoke_channel_permission_for_all_post(
    before: CommunityDocument,
    after: CommunityDocument,
    r: Result<(), Error>,
    user: Did,
    id: Uuid,
    permission: CommunityChannelPermission,
) -> bool {
    match before.channel_refusal(user, CommunityPermission::ManagePermissions, id) {
        Some(e) => r == Err::<(), Error>(e) && after == before,
        None => {
            &&& r is Ok
            &&& is_channel_changed(
                before,
                after,
                id,
                |before: CommunityChannel, after: CommunityChannel|
                    is_revoked(before, after, permission),
            )
        },
    }
}

impl CommunityChannel {
    /// A channel as it is opened.
    fn new(id: Uuid, name: &str, channel_type: CommunityChannelType, now: Timestamp) -> (r:
        CommunityChannel)
        ensures
            is_new_channel(r, id, name@, channel_type, now),
    {
        CommunityChannel {
            id,
            name: name.to_owned(),
            description: None,
            created: now,
            modified: now,
            channel_type,
            permissions: grants_new(),
        }
    }
}

impl CommunityDocument {
    /// Whether an identity is a member.
    pub open spec fn has_member(self, user: Did) -> bool {
        ordered::did_values(self.members).contains(user)
    }

    /// Whether an invite is for an identity.
    pub open spec fn has_invited(self, user: Did) -> bool {
        exists|i: int|
            0 <= i < tables::invite_entries(self.invites).len() && is_for(
                (#[trigger] tables::invite_entries(self.invites)[i]).1,
                user,
            )
    }

    /// Whether the community is known to an identity: to its creator, its members, and those who
    /// are invited.
    pub open spec fn knows(self, user: Did) -> bool {
        self.creator == user || self.has_member(user) || self.has_invited(user)
    }

    /// Whether an identity has a permission: the creator has all, and others have those of their
    /// roles.
    pub open spec fn permits(self, user: Did, permission: CommunityPermission) -> bool {
        self.creator == user || match ordered::lookup(
            tables::grant_entries(self.permissions),
            permission.spec_code(),
        ) {
            Some(set) => holds_one(tables::role_entries(self.roles), set, user),
            None => false,
        }
    }

    /// Whether an identity has a permission in a channel: the creator has all, and so has everyone
    /// as long as the permission is not tied to roles.
    pub open spec fn permits_in(
        self,
        channel: CommunityChannel,
        user: Did,
        permission: CommunityChannelPermission,
    ) -> bool {
        self.creator == user || match ordered::lookup(
            tables::grant_entries(channel.permissions),
            permission.spec_code(),
        ) {
            Some(set) => holds_one(tables::role_entries(self.roles), set, user),
            None => true,
        }
    }

    /// Why an identity may not do what takes a permission.
    pub open spec fn refusal(self, user: Did, permission: CommunityPermission) -> Option<Error> {
        if !self.knows(user) {
            Some(Error::InvalidCommunity)
        } else if !self.permits(user, permission) {
            Some(Error::Unauthorized)
        } else {
            None
        }
    }

    /// Why an identity may not change a channel.
    pub open spec fn channel_refusal(
        self,
        user: Did,
        permission: CommunityPermission,
        channel_id: Uuid,
    ) -> Option<Error> {
        match self.refusal(user, permission) {
            Some(e) => Some(e),
            None => if ordered::has_key(tables::channel_entries(self.channels), channel_id) {
                None
            } else {
                Some(Error::CommunityChannelDoesntExist)
            },
        }
    }

    /// A new community. Its creator is its first member.
    pub fn new(id: Uuid, creator: Did, name: &str, now: Timestamp) -> (r: Result<
        CommunityDocument,
        Error,
    >)
        ensures
            match name_refusal(name@) {
                Some(e) => r == Err::<CommunityDocument, Error>(e),
                None => r matches Ok(doc) && is_new(doc, id, creator, name@, now),
            },
    {
        let name = trim(name);
        let length: usize = name.len();
        if length < 1 || length > MAX_COMMUNITY_NAME {
            return Err(
                Error::InvalidLength {
                    context: LengthOf::Name,
                    current: length,
                    minimum: Some(1),
                    maximum: Some(MAX_COMMUNITY_NAME),
                },
            );
        }
        let mut members = dids_new();
        dids_insert(&mut members, creator);
        assert(ordered::did_values(members) == seq![creator]);
        Ok(
            CommunityDocument {
                id,
                name: name.to_owned(),
                description: None,
                creator,
                created: now,
                modified: now,
                members,
                channels: channels_new(),
                roles: roles_new(),
                permissions: grants_new(),
                invites: invites_new(),
            },
        )
    }

    /// Whether an invite is for an identity.
    pub fn is_invited(&self, user: Did) -> (r: bool)
        ensures
            r == self.has_invited(user),
    {
        let n: usize = invites_len(&self.invites);
        let ghost entries = tables::invite_entries(self.invites);
        let mut i: usize = 0;
        while i < n
            invariant
                entries == tables::invite_entries(self.invites),
                n == entries.len(),
                i <= n,
                forall|j: int| 0 <= j < i ==> !is_for((#[trigger] entries[j]).1, user),
            decreases n - i,
        {
            match invites_at(&self.invites, i) {
                Some((_, invite)) => {
                    let fits: bool = match invite.target_user {
                        Some(target) => target == user,
                        None => true,
                    };
                    if fits {
                        assert(is_for(entries[i as int].1, user));
                        return true;
                    }
                },
                None => {},
            }
            i = i + 1;
        }
        false
    }

    /// Whether the community is known to an identity.
    pub fn is_known_to(&self, user: Did) -> (r: bool)
        ensures
            r == self.knows(user),
    {
        self.creator == user || dids_contains(&self.members, user) || self.is_invited(user)
    }

    /// Whether an identity holds one of the roles of a set.
    fn holds_any(&self, set: &IndexSet<u128>, user: Did) -> (r: bool)
        ensures
            r == holds_one(tables::role_entries(self.roles), tables::uuid_values(*set), user),
    {
        let n: usize = uuids_len(set);
        let ghost values = tables::uuid_values(*set);
        let mut i: usize = 0;
        while i < n
            invariant
                values == tables::uuid_values(*set),
                n == values.len(),
                i <= n,
                forall|j: int|
                    0 <= j < i ==> !holds(
                        tables::role_entries(self.roles),
                        #[trigger] values[j],
                        user,
                    ),
            decreases n - i,
        {
            match uuids_at(set, i) {
                Some(id) => match roles_get(&self.roles, id) {
                    Some(role) => {
                        if dids_contains(&role.members, user) {
                            assert(holds(
                                tables::role_entries(self.roles),
                                values[i as int],
                                user,
                            ));
                            return true;
                        }
                    },
                    None => {},
                },
                None => {},
            }
            i = i + 1;
        }
        false
    }

    /// Whether an identity has a permission.
    pub fn has_permission(&self, user: Did, permission: CommunityPermission) -> (r: bool)
        ensures
            r == self.permits(user, permission),
    {
        if self.creator == user {
            return true;
        }
        match grants_get(&self.permissions, permission.code()) {
            Some(set) => self.holds_any(set, user),
            None => false,
        }
    }

    /// Whether an identity has a permission in a channel.
    pub fn has_channel_permission(
        &self,
        channel: &CommunityChannel,
        user: Did,
        permission: CommunityChannelPermission,
    ) -> (r: bool)
        ensures
            r == self.permits_in(*channel, user, permission),
    {
        if self.creator == user {
            return true;
        }
        match grants_get(&channel.permissions, permission.code()) {
            Some(set) => self.holds_any(set, user),
            None => true,
        }
    }

    /// Checks that an identity may do what takes a permission.
    pub fn check(&self, user: Did, permission: CommunityPermission) -> (r: Result<(), Error>)
        ensures
            match self.refusal(user, permission) {
                Some(e) => r == Err::<(), Error>(e),
                None => r is Ok,
            },
    {
        if !self.is_known_to(user) {
            return Err(Error::InvalidCommunity);
        }
        if !self.has_permission(user, permission) {
            return Err(Error::Unauthorized);
        }
        Ok(())
    }

    /// Invites one identity, or everyone.
    pub fn create_invite(
        &mut self,
        user: Did,
        id: Uuid,
        target_user: Option<Did>,
        expiry: Option<Timestamp>,
        now: Timestamp,
    ) -> (r: Result<CommunityInvite, Error>)
        ensures
            create_invite_post(*old(self), *final(self), r, user, id, target_user, expiry, now),
    {
        match self.check(user, CommunityPermission::ManageInvites) {
            Err(e) => return Err(e),
            Ok(()) => {},
        }
        let invite = CommunityInvite { id, target_user, created: now, expiry };
        invites_insert(&mut self.invites, id, invite);
        Ok(invite)
    }

    /// Takes an invite back. One that is not there is none to take back.
    pub fn delete_invite(&mut self, user: Did, id: Uuid) -> (r: Result<(), Error>)
        ensures
            delete_invite_post(*old(self), *final(self), r, user, id),
    {
        match self.check(user, CommunityPermission::ManageInvites) {
            Err(e) => return Err(e),
            Ok(()) => {},
        }
        invites_swap_remove(&mut self.invites, id);
        Ok(())
    }

    /// An invite.
    pub fn get_invite(&self, user: Did, id: Uuid) -> (r: Result<CommunityInvite, Error>)
        ensures
            get_invite_post(*self, r, user, id),
    {
        if !self.is_known_to(user) {
            return Err(Error::InvalidCommunity);
        }
        match invites_get(&self.invites, id) {
            Some(invite) => Ok(*invite),
            None => Err(Error::CommunityInviteDoesntExist),
        }
    }

    /// Joins by an invite.
    pub fn accept_invite(&mut self, user: Did, id: Uuid, now: Timestamp) -> (r: Result<(), Error>)
        ensures
            accept_invite_post(*old(self), *final(self), r, user, id, now),
    {
        if !self.is_known_to(user) {
            return Err(Error::InvalidCommunity);
        }
        match invites_get(&self.invites, id) {
            None => return Err(Error::CommunityInviteDoesntExist),
            Some(invite) => {
                match invite.target_user {
                    Some(target) => {
                        if target != user {
                            return Err(Error::CommunityInviteIncorrectUser);
                        }
                    },
                    None => {},
                }
                match invite.expiry {
                    Some(expiry) => {
                        if expiry < now {
                            return Err(Error::CommunityInviteExpired);
                        }
                    },
                    None => {},
                }
            },
        }
        dids_insert(&mut self.members, user);
        Ok(())
    }

    /// Changes whom an invite is for and when it ends. The rest of it stays.
    pub fn edit_invite(&mut self, user: Did, id: Uuid, edited: CommunityInvite) -> (r: Result<
        (),
        Error,
    >)
        ensures
            edit_invite_post(*old(self), *final(self), r, user, id, edited),
    {
        match self.check(user, CommunityPermission::ManageInvites) {
            Err(e) => return Err(e),
            Ok(()) => {},
        }
        let invite = match invites_get(&self.invites, id) {
            None => return Err(Error::CommunityInviteDoesntExist),
            Some(invite) => *invite,
        };
        invites_insert(
            &mut self.invites,
            id,
            CommunityInvite {
                id: invite.id,
                target_user: edited.target_user,
                created: invite.created,
                expiry: edited.expiry,
            },
        );
        Ok(())
    }

    /// Opens a channel.
    pub fn create_channel(
        &mut self,
        user: Did,
        id: Uuid,
        name: &str,
        channel_type: CommunityChannelType,
        now: Timestamp,
        max_channels: usize,
    ) -> (r: Result<CommunityChannel, Error>)
        ensures
            create_channel_post(
                *old(self),
                *final(self),
                r,
                user,
                id,
                name,
                channel_type,
                now,
                max_channels,
            ),
    {
        match self.check(user, CommunityPermission::ManageChannels) {
            Err(e) => return Err(e),
            Ok(()) => {},
        }
        if channels_len(&self.channels) >= max_channels {
            return Err(Error::CommunityChannelLimitReached);
        }
        let channel = CommunityChannel::new(id, name, channel_type, now);
        channels_insert(&mut self.channels, id, channel);
        assert(is_new_channel(channel, id, name@, channel_type, now));
        Ok(CommunityChannel::new(id, name, channel_type, now))
    }

    /// Closes a channel. One that is not there is none to close.
    pub fn delete_channel(&mut self, user: Did, id: Uuid) -> (r: Result<(), Error>)
        ensures
            delete_channel_post(*old(self), *final(self), r, user, id),
    {
        match self.check(user, CommunityPermission::ManageChannels) {
            Err(e) => return Err(e),
            Ok(()) => {},
        }
        channels_swap_remove(&mut self.channels, id);
        Ok(())
    }

    /// A channel, for those who may see it.
    pub fn get_channel(&self, user: Did, id: Uuid) -> (r: Result<&CommunityChannel, Error>)
        ensures
            get_channel_post(*self, r, user, id),
    {
        if !self.is_known_to(user) {
            return Err(Error::InvalidCommunity);
        }
        match channels_get(&self.channels, id) {
            None => Err(Error::CommunityChannelDoesntExist),
            Some(channel) => if self.has_channel_permission(
                channel,
                user,
                CommunityChannelPermission::ViewChannel,
            ) {
                Ok(channel)
            } else {
                Err(Error::Unauthorized)
            },
        }
    }

    /// Renames the community.
    pub fn edit_name(&mut self, user: Did, name: &str) -> (r: Result<(), Error>)
        ensures
            edit_name_post(*old(self), *final(self), r, user, name),
    {
        match self.check(user, CommunityPermission::EditInfo) {
            Err(e) => return Err(e),
            Ok(()) => {},
        }
        self.name = name.to_owned();
        Ok(())
    }

    /// Describes the community.
    pub fn edit_description(&mut self, user: Did, description: Option<String>) -> (r: Result<
        (),
        Error,
    >)
        ensures
            edit_description_post(*old(self), *final(self), r, user, description),
    {
        match self.check(user, CommunityPermission::EditInfo) {
            Err(e) => return Err(e),
            Ok(()) => {},
        }
        self.description = description;
        Ok(())
    }

    /// Makes a role that nobody holds yet.
    pub fn create_role(&mut self, user: Did, id: RoleId, name: &str) -> (r: Result<
        CommunityRole,
        Error,
    >)
        ensures
            create_role_post(*old(self), *final(self), r, user, id, name),
    {
        match self.check(user, CommunityPermission::ManageRoles) {
            Err(e) => return Err(e),
            Ok(()) => {},
        }
        let role = CommunityRole { id, name: name.to_owned(), members: dids_new() };
        roles_insert(&mut self.roles, id, role);
        assert(is_new_role(role, id, name@));
        Ok(CommunityRole { id, name: name.to_owned(), members: dids_new() })
    }

    /// A role.
    pub fn get_role(&self, user: Did, id: RoleId) -> (r: Result<&CommunityRole, Error>)
        ensures
            get_role_post(*self, r, user, id),
    {
        if !self.is_known_to(user) {
            return Err(Error::InvalidCommunity);
        }
        match roles_get(&self.roles, id) {
            None => Err(Error::CommunityRoleDoesntExist),
            Some(role) => Ok(role),
        }
    }

    /// Gives a role to an identity.
    pub fn grant_role(&mut self, user: Did, id: RoleId, member: Did) -> (r: Result<(), Error>)
        ensures
            grant_role_post(*old(self), *final(self), r, user, id, member),
    {
        match self.check(user, CommunityPermission::ManageRoles) {
            Err(e) => return Err(e),
            Ok(()) => {},
        }
        match roles_get_mut(&mut self.roles, id) {
            None => Err(Error::CommunityRoleDoesntExist),
            Some(role) => {
                let ghost before = *role;
                dids_insert(&mut role.members, member);
                let ghost changed = *role;
                assert(changed == (CommunityRole { members: changed.members, ..before }));
                Ok(())
            },
        }
    }

    /// Renames a role.
    pub fn edit_role_name(&mut self, user: Did, id: RoleId, name: String) -> (r: Result<(), Error>)
        ensures
            edit_role_name_post(*old(self), *final(self), r, user, id, name),
    {
        match self.check(user, CommunityPermission::ManageRoles) {
            Err(e) => return Err(e),
            Ok(()) => {},
        }
        match roles_get_mut(&mut self.roles, id) {
            None => Err(Error::CommunityRoleDoesntExist),
            Some(role) => {
                role.name = name;
                Ok(())
            },
        }
    }

    /// Puts other roles in place of all.
    pub fn edit_roles(&mut self, user: Did, roles: CommunityRoles) -> (r: Result<(), Error>)
        ensures
            edit_roles_post(*old(self), *final(self), r, user, roles),
    {
        match self.check(user, CommunityPermission::ManageRoles) {
            Err(e) => return Err(e),
            Ok(()) => {},
        }
        self.roles = roles;
        Ok(())
    }

    /// Grants a permission to a role.
    pub fn grant_permission(
        &mut self,
        user: Did,
        permission: CommunityPermission,
        role: RoleId,
    ) -> (r: Result<(), Error>)
        ensures
            grant_permission_post(*old(self), *final(self), r, user, permission, role),
    {
        match self.check(user, CommunityPermission::ManagePermissions) {
            Err(e) => return Err(e),
            Ok(()) => {},
        }
        let code: u8 = permission.code();
        let mut roles: IndexSet<u128> = match grants_get(&self.permissions, code) {
            Some(set) => uuids_clone(set),
            None => uuids_new(),
        };
        uuids_insert(&mut roles, role);
        grants_insert(&mut self.permissions, code, roles);
        Ok(())
    }

    /// Puts other permissions in place of all.
    pub fn edit_permissions(&mut self, user: Did, permissions: CommunityPermissions) -> (r: Result<
        (),
        Error,
    >)
        ensures
            edit_permissions_post(*old(self), *final(self), r, user, permissions),
    {
        match self.check(user, CommunityPermission::ManagePermissions) {
            Err(e) => return Err(e),
            Ok(()) => {},
        }
        self.permissions = permissions;
        Ok(())
    }

    /// Takes a member out. Who is no member is none to take out.
    pub fn remove_member(&mut self, user: Did, member: Did) -> (r: Result<(), Error>)
        ensures
            remove_member_post(*old(self), *final(self), r, user, member),
    {
        match self.check(user, CommunityPermission::ManageMembers) {
            Err(e) => return Err(e),
            Ok(()) => {},
        }
        dids_swap_remove(&mut self.members, member);
        Ok(())
    }

    /// Renames a channel.
    pub fn edit_channel_name(&mut self, user: Did, id: Uuid, name: &str) -> (r: Result<(), Error>)
        ensures
            edit_channel_name_post(*old(self), *final(self), r, user, id, name),
    {
        match self.check(user, CommunityPermission::ManageChannels) {
            Err(e) => return Err(e),
            Ok(()) => {},
        }
        match channels_get_mut(&mut self.channels, id) {
            None => Err(Error::CommunityChannelDoesntExist),
            Some(channel) => {
                channel.name = name.to_owned();
                Ok(())
            },
        }
    }

    /// Describes a channel.
    pub fn edit_channel_description(
        &mut self,
        user: Did,
        id: Uuid,
        description: Option<String>,
    ) -> (r: Result<(), Error>)
        ensures
            edit_channel_description_post(*old(self), *final(self), r, user, id, description),
    {
        match self.check(user, CommunityPermission::ManageChannels) {
            Err(e) => return Err(e),
            Ok(()) => {},
        }
        match channels_get_mut(&mut self.channels, id) {
            None => Err(Error::CommunityChannelDoesntExist),
            Some(channel) => {
                channel.description = description;
                Ok(())
            },
        }
    }

    /// Puts other permissions in place of all of a channel.
    pub fn edit_channel_permissions(
        &mut self,
        user: Did,
        id: Uuid,
        permissions: CommunityChannelPermissions,
    ) -> (r: Result<(), Error>)
        ensures
            edit_channel_permissions_post(*old(self), *final(self), r, user, id, permissions),
    {
        match self.check(user, CommunityPermission::ManagePermissions) {
            Err(e) => return Err(e),
            Ok(()) => {},
        }
        match channels_get_mut(&mut self.channels, id) {
            None => Err(Error::CommunityChannelDoesntExist),
            Some(channel) => {
                channel.permissions = permissions;
                Ok(())
            },
        }
    }

    /// Lets everyone have a permission in a channel.
    pub fn grant_channel_permission_for_all(
        &mut self,
        user: Did,
        id: Uuid,
        permission: CommunityChannelPermission,
    ) -> (r: Result<(), Error>)
        ensures
            grant_channel_permission_for_all_post(
                *old(self),
                *final(self),
                r,
                user,
                id,
                permission,
            ),
    {
        match self.check(user, CommunityPermission::ManagePermissions) {
            Err(e) => return Err(e),
            Ok(()) => {},
        }
        match channels_get_mut(&mut self.channels, id) {
            None => Err(Error::CommunityChannelDoesntExist),
            Some(channel) => {
                grants_swap_remove(&mut channel.permissions, permission.code());
                Ok(())
            },
        }
    }

    /// Lets no role, and so nobody but the creator, have a permission in a channel.
    pub fn revoke_channel_permission_for_all(
        &mut self,
        user: Did,
        id: Uuid,
        permission: CommunityChannelPermission,
    ) -> (r: Result<(), Error>)
        ensures
            revoke_channel_permission_for_all_post(
                *old(self),
                *final(self),
                r,
                user,
                id,
                permission,
            ),
    {
        match self.check(user, CommunityPermission::ManagePermissions) {
            Err(e) => return Err(e),
            Ok(()) => {},
        }
        match channels_get_mut(&mut self.channels, id) {
            None => Err(Error::CommunityChannelDoesntExist),
            Some(channel) => {
                grants_insert(&mut channel.permissions, permission.code(), uuids_new());
                Ok(())
            },
        }
    }
}

/// A new channel.
pub open spec fn is_new_channel(
    channel: CommunityChannel,
    id: Uuid,
    name: Seq<char>,
    channel_type: CommunityChannelType,
    now: Timestamp,
) -> bool {
    &&& channel.id == id
    &&& channel.name@ == name
    &&& channel.description is None
    &&& channel.created == now
    &&& channel.modified == now
    &&& channel.channel_type == channel_type
    &&& tables::grant_entries(channel.permissions).len() == 0
}

/// One channel of a community changed, and nothing else.
pub open spec fn is_channel_changed(
    before: CommunityDocument,
    after: CommunityDocument,
    id: Uuid,
    change: spec_fn(CommunityChannel, CommunityChannel) -> bool,
) -> bool {
    &&& after == (CommunityDocument { channels: after.channels, ..before })
    &&& exists|channel: CommunityChannel|
        {
            &&& tables::channel_entries(after.channels) == #[trigger] ordered::inserted(
                tables::channel_entries(before.channels),
                id,
                channel,
            )
            &&& change(
                ordered::lookup(tables::channel_entries(before.channels), id)->Some_0,
                channel,
            )
        }
}

/// A channel after nobody has a permission in it any more.
pub open spec fn is_revoked(
    before: CommunityChannel,
    after: CommunityChannel,
    permission: CommunityChannelPermission,
) -> bool {
    &&& after == (CommunityChannel { permissions: after.permissions, ..before })
    &&& tables::grant_entries(after.permissions) == ordered::inserted(
        tables::grant_entries(before.permissions),
        permission.spec_code(),
        Seq::empty(),
    )
}

} // verus!
