//! Identities as other users see them.
use vstd::prelude::*;
use std::collections::HashMap;

verus! {

#[derive(Clone, Debug)]
pub struct Role {
    /// Name of the role
    pub name: String,
    pub level: u8,
}

#[derive(Clone, Debug)]
pub struct Badge {
    pub name: String,
    pub icon: String,
}

#[derive(Clone, Debug)]
pub struct Graphics {
    /// Hash to profile picture
    pub profile_picture: String,
    /// Hash to profile banner
    pub profile_banner: String,
}

#[derive(Clone, Debug)]
pub struct Identity {
    /// Username of the identity
    pub username: String,
    /// Short 4-digit numeric id to be used along side `Identity::username` (eg `Username#0000`)
    pub short_id: u16,
    /// Public key for the identity
    pub public_key: PublicKey,
    pub graphics: Graphics,
    /// Status message
    pub status_message: Option<String>,
    /// List of roles
    pub roles: Vec<Role>,
    /// List of available badges
    pub available_badges: Vec<Badge>,
    /// Active badge for identity
    pub active_badge: Badge,
    pub linked_accounts: HashMap<String, String>,
}

#[derive(Clone, Debug)]
pub struct PublicKey(pub Vec<u8>);

#[derive(Clone, Debug)]
pub enum Identifier {
    /// Select identity based on public key
    PublicKey(PublicKey),
    /// Select identity based on Username (eg `Username#0000`)
    Username(String),
    /// Select own identity.
    Own,
}

#[derive(Clone, Debug)]
pub enum Username {
    Full(String),
    Format(String, u16),
}

impl Username {
    /// Whether the name can be used. Neither form has a rule to break.
    pub fn valid(&self) -> (r: bool)
        ensures
            r,
    {
        match self {
            Username::Full(..) => true,
            Username::Format(..) => true,
        }
    }
}

impl From<PublicKey> for Identifier {
    fn from(pubkey: PublicKey) -> (r: Identifier) {
        Identifier::PublicKey(pubkey)
    }
}

impl vstd::std_specs::convert::FromSpecImpl<PublicKey> for Identifier {
    open spec fn obeys_from_spec() -> bool {
        true
    }

    open spec fn from_spec(pubkey: PublicKey) -> Identifier {
        Identifier::PublicKey(pubkey)
    }
}

impl From<String> for Identifier {
    fn from(username: String) -> (r: Identifier) {
        Identifier::Username(username)
    }
}

impl vstd::std_specs::convert::FromSpecImpl<String> for Identifier {
    open spec fn obeys_from_spec() -> bool {
        true
    }

    open spec fn from_spec(username: String) -> Identifier {
        Identifier::Username(username)
    }
}

#[derive(Clone, Debug)]
pub enum IdentityUpdate {
    /// Update Username
    Username(String),
    /// Update graphics
    Graphics(Graphics),
    /// Update status message
    StatusMessage(String),
}

} // verus!
