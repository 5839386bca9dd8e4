//! Communities: their channels, roles and invites, and who may do what in them.
use vstd::prelude::*;
use indexmap::{IndexMap, IndexSet};
use crate::conversation::attach::Location;
use crate::conversation::info::ConversationImage;
use crate::error::Error;
use crate::ids::{Did, Timestamp, Uuid};

pub mod document;
pub mod laws;
pub mod rules;
pub mod store;
pub mod tables;

verus! {

pub type RoleId = Uuid;

/// The roles of a community, by their identifiers.
pub type CommunityRoles = IndexMap<RoleId, CommunityRole>;

/// The roles that have a permission, by the code of the permission.
pub type CommunityPermissions = IndexMap<u8, IndexSet<RoleId>>;

/// The roles that have a permission in a channel, by the code of the permission.
pub type CommunityChannelPermissions = IndexMap<u8, IndexSet<RoleId>>;

/// Identities, each as its two halves.
pub type Dids = IndexSet<(u128, u128)>;

#[derive(Clone, Copy, PartialEq, Eq, Structural, Debug)]
pub enum CommunityChannelType {
    Standard,
    VoiceEnabled,
}

impl Default for CommunityChannelType {
    fn default() -> (r: CommunityChannelType)
        ensures
            r == CommunityChannelType::Standard,
    {
        CommunityChannelType::Standard
    }
}

#[derive(Clone, Copy, PartialEq, Eq, Structural, Debug)]
pub enum CommunityPermission {
    EditName,
    EditDescription,
    EditInfo,
    ManageRoles,
    ManagePermissions,
    ManageMembers,
    ManageChannels,
    ManageInvites,
}

impl CommunityPermission {
    /// The code under which roles are granted a permission.
    pub open spec fn spec_code(self) -> u8 {
        match self {
            CommunityPermission::EditName => 0,
            CommunityPermission::EditDescription => 1,
            CommunityPermission::EditInfo => 2,
            CommunityPermission::ManageRoles => 3,
            CommunityPermission::ManagePermissions => 4,
            CommunityPermission::ManageMembers => 5,
            CommunityPermission::ManageChannels => 6,
            CommunityPermission::ManageInvites => 7,
        }
    }

    pub fn code(self) -> (r: u8)
        ensures
            r == self.spec_code(),
    {
        match self {
            CommunityPermission::EditName => 0,
            CommunityPermission::EditDescription => 1,
            CommunityPermission::EditInfo => 2,
            CommunityPermission::ManageRoles => 3,
            CommunityPermission::ManagePermissions => 4,
            CommunityPermission::ManageMembers => 5,
            CommunityPermission::ManageChannels => 6,
            CommunityPermission::ManageInvites => 7,
        }
    }
}

#[derive(Clone, Copy, PartialEq, Eq, Structural, Debug)]
pub enum CommunityChannelPermission {
    ViewChannel,
    EditName,
    EditDescription,
    SendMessages,
    DeleteMessages,
}

impl CommunityChannelPermission {
    /// The code under which roles are granted a permission.
    pub open spec fn spec_code(self) -> u8 {
        match self {
            CommunityChannelPermission::ViewChannel => 0,
            CommunityChannelPermission::EditName => 1,
            CommunityChannelPermission::EditDescription => 2,
            CommunityChannelPermission::SendMessages => 3,
            CommunityChannelPermission::DeleteMessages => 4,
        }
    }

    pub fn code(self) -> (r: u8)
        ensures
            r == self.spec_code(),
    {
        match self {
            CommunityChannelPermission::ViewChannel => 0,
            CommunityChannelPermission::EditName => 1,
            CommunityChannelPermission::EditDescription => 2,
            CommunityChannelPermission::SendMessages => 3,
            CommunityChannelPermission::DeleteMessages => 4,
        }
    }
}

#[derive(PartialEq, Eq, Debug)]
pub struct CommunityRole {
    pub id: RoleId,
    pub name: String,
    pub members: Dids,
}

#[derive(Clone, Copy, PartialEq, Eq, Structural, Debug)]
pub struct CommunityInvite {
    pub id: Uuid,
    /// The only one who may accept it, where it is not for everyone.
    pub target_user: Option<Did>,
    pub created: Timestamp,
    pub expiry: Option<Timestamp>,
}

#[derive(Debug)]
pub struct CommunityChannel {
    pub id: Uuid,
    pub name: String,
    pub description: Option<String>,
    pub created: Timestamp,
    pub modified: Timestamp,
    pub channel_type: CommunityChannelType,
    pub permissions: CommunityChannelPermissions,
}

/// What is shown of a community.
#[derive(Debug)]
pub struct Community {
    pub id: Uuid,
    pub name: String,
    pub description: Option<String>,
    pub creator: Did,
    pub created: Timestamp,
    pub modified: Timestamp,
    pub members: Dids,
    pub channels: IndexSet<Uuid>,
    pub roles: CommunityRoles,
    pub permissions: CommunityPermissions,
    pub invites: IndexSet<Uuid>,
}

impl CommunityRole {
    pub fn id(&self) -> (r: RoleId)
        ensures
            r == self.id,
    {
        self.id
    }

    pub fn name(&self) -> (r: &String)
        ensures
            *r == self.name,
    {
        &self.name
    }

    pub fn members(&self) -> (r: &Dids)
        ensures
            *r == self.members,
    {
        &self.members
    }

    pub fn set_id(&mut self, id: RoleId)
        ensures
            *final(self) == (CommunityRole { id, ..*old(self) }),
    {
        self.id = id;
    }

    pub fn set_name(&mut self, name: String)
        ensures
            *final(self) == (CommunityRole { name, ..*old(self) }),
    {
        self.name = name;
    }

    pub fn set_members(&mut self, members: Dids)
        ensures
            *final(self) == (CommunityRole { members, ..*old(self) }),
    {
        self.members = members;
    }
}

impl CommunityInvite {
    pub fn id(&self) -> (r: Uuid)
        ensures
            r == self.id,
    {
        self.id
    }

    pub fn target_user(&self) -> (r: &Option<Did>)
        ensures
            *r == self.target_user,
    {
        &self.target_user
    }

    pub fn created(&self) -> (r: Timestamp)
        ensures
            r == self.created,
    {
        self.created
    }

    pub fn expiry(&self) -> (r: Option<Timestamp>)
        ensures
            r == self.expiry,
    {
        self.expiry
    }

    pub fn set_id(&mut self, id: Uuid)
        ensures
            *final(self) == (CommunityInvite { id, ..*old(self) }),
    {
        self.id = id;
    }

    pub fn set_target_user(&mut self, target_user: Option<Did>)
        ensures
            *final(self) == (CommunityInvite { target_user, ..*old(self) }),
    {
        self.target_user = target_user;
    }

    pub fn set_created(&mut self, created: Timestamp)
        ensures
            *final(self) == (CommunityInvite { created, ..*old(self) }),
    {
        self.created = created;
    }

    pub fn set_expiry(&mut self, expiry: Option<Timestamp>)
        ensures
            *final(self) == (CommunityInvite { expiry, ..*old(self) }),
    {
        self.expiry = expiry;
    }
}

impl Community {
    pub fn id(&self) -> (r: Uuid)
        ensures
            r == self.id,
    {
        self.id
    }

    pub fn name(&self) -> (r: &String)
        ensures
            *r == self.name,
    {
        &self.name
    }

    pub fn description(&self) -> (r: Option<&str>)
        ensures
            match r {
                Some(d) => self.description matches Some(e) && d@ == e@,
                None => self.description is None,
            },
    {
        match &self.description {
            Some(d) => Some(d.as_str()),
            None => None,
        }
    }

    pub fn creator(&self) -> (r: &Did)
        ensures
            *r == self.creator,
    {
        &self.creator
    }

    pub fn created(&self) -> (r: Timestamp)
        ensures
            r == self.created,
    {
        self.created
    }

    pub fn modified(&self) -> (r: Timestamp)
        ensures
            r == self.modified,
    {
        self.modified
    }

    pub fn members(&self) -> (r: &Dids)
        ensures
            *r == self.members,
    {
        &self.members
    }

    pub fn channels(&self) -> (r: &IndexSet<Uuid>)
        ensures
            *r == self.channels,
    {
        &self.channels
    }

    pub fn roles(&self) -> (r: &CommunityRoles)
        ensures
            *r == self.roles,
    {
        &self.roles
    }

    pub fn permissions(&self) -> (r: &CommunityPermissions)
        ensures
            *r == self.permissions,
    {
        &self.permissions
    }

    pub fn invites(&self) -> (r: &IndexSet<Uuid>)
        ensures
            *r == self.invites,
    {
        &self.invites
    }

    pub fn set_id(&mut self, id: Uuid)
        ensures
            *final(self) == (Community { id, ..*old(self) }),
    {
        self.id = id;
    }

    pub fn set_name(&mut self, name: String)
        ensures
            *final(self) == (Community { name, ..*old(self) }),
    {
        self.name = name;
    }

    pub fn set_description(&mut self, description: Option<String>)
        ensures
            *final(self) == (Community { description, ..*old(self) }),
    {
        self.description = description;
    }

    pub fn set_creator(&mut self, creator: Did)
        ensures
            *final(self) == (Community { creator, ..*old(self) }),
    {
        self.creator = creator;
    }

    pub fn set_created(&mut self, created: Timestamp)
        ensures
            *final(self) == (Community { created, ..*old(self) }),
    {
        self.created = created;
    }

    pub fn set_modified(&mut self, modified: Timestamp)
        ensures
            *final(self) == (Community { modified, ..*old(self) }),
    {
        self.modified = modified;
    }

    pub fn set_members(&mut self, members: Dids)
        ensures
            *final(self) == (Community { members, ..*old(self) }),
    {
        self.members = members;
    }

    pub fn set_channels(&mut self, channels: IndexSet<Uuid>)
        ensures
            *final(self) == (Community { channels, ..*old(self) }),
    {
        self.channels = channels;
    }

    pub fn set_roles(&mut self, roles: CommunityRoles)
        ensures
            *final(self) == (Community { roles, ..*old(self) }),
    {
        self.roles = roles;
    }

    pub fn set_permissions(&mut self, permissions: CommunityPermissions)
        ensures
            *final(self) == (Community { permissions, ..*old(self) }),
    {
        self.permissions = permissions;
    }

    pub fn set_invites(&mut self, invites: IndexSet<Uuid>)
        ensures
            *final(self) == (Community { invites, ..*old(self) }),
    {
        self.invites = invites;
    }
}

impl CommunityChannel {
    pub fn id(&self) -> (r: Uuid)
        ensures
            r == self.id,
    {
        self.id
    }

    pub fn name(&self) -> (r: &String)
        ensures
            *r == self.name,
    {
        &self.name
    }

    pub fn description(&self) -> (r: Option<&str>)
        ensures
            match r {
                Some(d) => self.description matches Some(e) && d@ == e@,
                None => self.description is None,
            },
    {
        match &self.description {
            Some(d) => Some(d.as_str()),
            None => None,
        }
    }

    pub fn created(&self) -> (r: Timestamp)
        ensures
            r == self.created,
    {
        self.created
    }

    pub fn modified(&self) -> (r: Timestamp)
        ensures
            r == self.modified,
    {
        self.modified
    }

    pub fn channel_type(&self) -> (r: CommunityChannelType)
        ensures
            r == self.channel_type,
    {
        self.channel_type
    }

    pub fn permissions(&self) -> (r: &CommunityChannelPermissions)
        ensures
            *r == self.permissions,
    {
        &self.permissions
    }

    pub fn set_id(&mut self, id: Uuid)
        ensures
            *final(self) == (CommunityChannel { id, ..*old(self) }),
    {
        self.id = id;
    }

    pub fn set_name(&mut self, name: String)
        ensures
            *final(self) == (CommunityChannel { name, ..*old(self) }),
    {
        self.name = name;
    }

    pub fn set_description(&mut self, description: Option<String>)
        ensures
            *final(self) == (CommunityChannel { description, ..*old(self) }),
    {
        self.description = description;
    }

    pub fn set_created(&mut self, created: Timestamp)
        ensures
            *final(self) == (CommunityChannel { created, ..*old(self) }),
    {
        self.created = created;
    }

    pub fn set_modified(&mut self, modified: Timestamp)
        ensures
            *final(self) == (CommunityChannel { modified, ..*old(self) }),
    {
        self.modified = modified;
    }

    pub fn set_channel_type(&mut self, channel_type: CommunityChannelType)
        ensures
            *final(self) == (CommunityChannel { channel_type, ..*old(self) }),
    {
        self.channel_type = channel_type;
    }

    pub fn set_permissions(&mut self, permissions: CommunityChannelPermissions)
        ensures
            *final(self) == (CommunityChannel { permissions, ..*old(self) }),
    {
        self.permissions = permissions;
    }
}

/// What a node offers of communities. What it does not offer is not implemented.
pub trait RayGunCommunity: Sized {
    fn create_community(
        &mut self,
        _name: &str,
    ) -> (r: Result<Community, Error>)
        default_ensures
            r == Err::<Community, Error>(Error::Unimplemented),
            *final(self) == *old(self),
    {
        Err(Error::Unimplemented)
    }

    fn delete_community(
        &mut self,
        _community_id: Uuid,
    ) -> (r: Result<(), Error>)
        default_ensures
            r == Err::<(), Error>(Error::Unimplemented),
            *final(self) == *old(self),
    {
        Err(Error::Unimplemented)
    }

    fn get_community(
        &mut self,
        _community_id: Uuid,
    ) -> (r: Result<Community, Error>)
        default_ensures
            r == Err::<Community, Error>(Error::Unimplemented),
            *final(self) == *old(self),
    {
        Err(Error::Unimplemented)
    }

    fn get_community_icon(
        &self,
        _community_id: Uuid,
    ) -> (r: Result<ConversationImage, Error>)
        default_ensures
            r == Err::<ConversationImage, Error>(Error::Unimplemented),
    {
        Err(Error::Unimplemented)
    }

    fn get_community_banner(
        &self,
        _community_id: Uuid,
    ) -> (r: Result<ConversationImage, Error>)
        default_ensures
            r == Err::<ConversationImage, Error>(Error::Unimplemented),
    {
        Err(Error::Unimplemented)
    }

    fn edit_community_icon(
        &mut self,
        _community_id: Uuid,
        _location: Location,
    ) -> (r: Result<(), Error>)
        default_ensures
            r == Err::<(), Error>(Error::Unimplemented),
            *final(self) == *old(self),
    {
        Err(Error::Unimplemented)
    }

    fn edit_community_banner(
        &mut self,
        _community_id: Uuid,
        _location: Location,
    ) -> (r: Result<(), Error>)
        default_ensures
            r == Err::<(), Error>(Error::Unimplemented),
            *final(self) == *old(self),
    {
        Err(Error::Unimplemented)
    }

    fn create_community_invite(
        &mut self,
        _community_id: Uuid,
        _target_user: Option<Did>,
        _expiry: Option<Timestamp>,
    ) -> (r: Result<CommunityInvite, Error>)
        default_ensures
            r == Err::<CommunityInvite, Error>(Error::Unimplemented),
            *final(self) == *old(self),
    {
        Err(Error::Unimplemented)
    }

    fn delete_community_invite(
        &mut self,
        _community_id: Uuid,
        _invite_id: Uuid,
    ) -> (r: Result<(), Error>)
        default_ensures
            r == Err::<(), Error>(Error::Unimplemented),
            *final(self) == *old(self),
    {
        Err(Error::Unimplemented)
    }

    fn get_community_invite(
        &mut self,
        _community_id: Uuid,
        _invite_id: Uuid,
    ) -> (r: Result<CommunityInvite, Error>)
        default_ensures
            r == Err::<CommunityInvite, Error>(Error::Unimplemented),
            *final(self) == *old(self),
    {
        Err(Error::Unimplemented)
    }

    fn accept_community_invite(
        &mut self,
        _community_id: Uuid,
        _invite_id: Uuid,
    ) -> (r: Result<(), Error>)
        default_ensures
            r == Err::<(), Error>(Error::Unimplemented),
            *final(self) == *old(self),
    {
        Err(Error::Unimplemented)
    }

    fn edit_community_invite(
        &mut self,
        _community_id: Uuid,
        _invite_id: Uuid,
        _invite: CommunityInvite,
    ) -> (r: Result<(), Error>)
        default_ensures
            r == Err::<(), Error>(Error::Unimplemented),
            *final(self) == *old(self),
    {
        Err(Error::Unimplemented)
    }

    fn create_community_channel(
        &mut self,
        _community_id: Uuid,
        _channel_name: &str,
        _channel_type: CommunityChannelType,
    ) -> (r: Result<CommunityChannel, Error>)
        default_ensures
            r == Err::<CommunityChannel, Error>(Error::Unimplemented),
            *final(self) == *old(self),
    {
        Err(Error::Unimplemented)
    }

    fn delete_community_channel(
        &mut self,
        _community_id: Uuid,
        _channel_id: Uuid,
    ) -> (r: Result<(), Error>)
        default_ensures
            r == Err::<(), Error>(Error::Unimplemented),
            *final(self) == *old(self),
    {
        Err(Error::Unimplemented)
    }

    fn get_community_channel(
        &mut self,
        _community_id: Uuid,
        _channel_id: Uuid,
    ) -> (r: Result<CommunityChannel, Error>)
        default_ensures
            r == Err::<CommunityChannel, Error>(Error::Unimplemented),
            *final(self) == *old(self),
    {
        Err(Error::Unimplemented)
    }

    fn edit_community_name(
        &mut self,
        _community_id: Uuid,
        _name: &str,
    ) -> (r: Result<(), Error>)
        default_ensures
            r == Err::<(), Error>(Error::Unimplemented),
            *final(self) == *old(self),
    {
        Err(Error::Unimplemented)
    }

    fn edit_community_description(
        &mut self,
        _community_id: Uuid,
        _description: Option<String>,
    ) -> (r: Result<(), Error>)
        default_ensures
            r == Err::<(), Error>(Error::Unimplemented),
            *final(self) == *old(self),
    {
        Err(Error::Unimplemented)
    }

    fn edit_community_roles(
        &mut self,
        _community_id: Uuid,
        _roles: CommunityRoles,
    ) -> (r: Result<(), Error>)
        default_ensures
            r == Err::<(), Error>(Error::Unimplemented),
            *final(self) == *old(self),
    {
        Err(Error::Unimplemented)
    }

    fn edit_community_permissions(
        &mut self,
        _community_id: Uuid,
        _permissions: CommunityPermissions,
    ) -> (r: Result<(), Error>)
        default_ensures
            r == Err::<(), Error>(Error::Unimplemented),
            *final(self) == *old(self),
    {
        Err(Error::Unimplemented)
    }

    fn remove_community_member(
        &mut self,
        _community_id: Uuid,
        _member: Did,
    ) -> (r: Result<(), Error>)
        default_ensures
            r == Err::<(), Error>(Error::Unimplemented),
            *final(self) == *old(self),
    {
        Err(Error::Unimplemented)
    }

    fn edit_community_channel_name(
        &mut self,
        _community_id: Uuid,
        _channel_id: Uuid,
        _name: &str,
    ) -> (r: Result<(), Error>)
        default_ensures
            r == Err::<(), Error>(Error::Unimplemented),
            *final(self) == *old(self),
    {
        Err(Error::Unimplemented)
    }

    fn edit_community_channel_description(
        &mut self,
        _community_id: Uuid,
        _channel_id: Uuid,
        _description: Option<String>,
    ) -> (r: Result<(), Error>)
        default_ensures
            r == Err::<(), Error>(Error::Unimplemented),
            *final(self) == *old(self),
    {
        Err(Error::Unimplemented)
    }

    fn edit_community_channel_permissions(
        &mut self,
        _community_id: Uuid,
        _channel_id: Uuid,
        _permissions: CommunityChannelPermissions,
    ) -> (r: Result<(), Error>)
        default_ensures
            r == Err::<(), Error>(Error::Unimplemented),
            *final(self) == *old(self),
    {
        Err(Error::Unimplemented)
    }

    fn send_community_channel_message(
        &mut self,
        _community_id: Uuid,
        _channel_id: Uuid,
        _message: &str,
    ) -> (r: Result<(), Error>)
        default_ensures
            r == Err::<(), Error>(Error::Unimplemented),
            *final(self) == *old(self),
    {
        Err(Error::Unimplemented)
    }

    fn delete_community_channel_message(
        &mut self,
        _community_id: Uuid,
        _channel_id: Uuid,
        _message_id: Uuid,
    ) -> (r: Result<(), Error>)
        default_ensures
            r == Err::<(), Error>(Error::Unimplemented),
            *final(self) == *old(self),
    {
        Err(Error::Unimplemented)
    }
}

} // verus!
