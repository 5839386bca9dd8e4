//! The maps and sets of a community, and what the library relies on of them.
use vstd::prelude::*;
use indexmap::{IndexMap, IndexSet};
use crate::ordered;
use super::{
    CommunityChannel, CommunityInvite, CommunityPermissions, CommunityRole, CommunityRoles, Dids,
    RoleId,
};
use crate::ids::Uuid;

verus! {

/// `IndexSet::clone`: a set with the same values in the same order.
#[verifier::external_body]
pub(crate) fn dids_clone(s: &Dids) -> (r: Dids)
    ensures
        ordered::did_values(r) == ordered::did_values(*s),
{
    s.clone()
}

/// The values of a set of identifiers.
pub uninterp spec fn uuid_values(s: IndexSet<u128>) -> Seq<Uuid>;

/// `IndexSet::new`: a set without values.
#[verifier::external_body]
pub(crate) fn uuids_new() -> (r: IndexSet<u128>)
    ensures
        uuid_values(r) == Seq::<Uuid>::empty(),
{
    IndexSet::new()
}

/// `IndexSet::len`: the number of values.
#[verifier::external_body]
pub(crate) fn uuids_len(s: &IndexSet<u128>) -> (r: usize)
    ensures
        r == uuid_values(*s).len(),
{
    s.len()
}

/// `IndexSet::get_index`: the value at a position.
#[verifier::external_body]
pub(crate) fn uuids_at(s: &IndexSet<u128>, index: usize) -> (r: Option<Uuid>)
    ensures
        match r {
            Some(id) => index < uuid_values(*s).len() && uuid_values(*s)[index as int] == id,
            None => index >= uuid_values(*s).len(),
        },
{
    s.get_index(index).copied()
}

/// `IndexSet::insert`: puts a value last where it is not there yet.
#[verifier::external_body]
pub(crate) fn uuids_insert(s: &mut IndexSet<u128>, id: Uuid)
    ensures
        uuid_values(*final(s)) == ordered::set_inserted(uuid_values(*old(s)), id),
{
    s.insert(id);
}

/// `IndexSet::clone`: a set with the same values in the same order.
#[verifier::external_body]
pub(crate) fn uuids_clone(s: &IndexSet<u128>) -> (r: IndexSet<u128>)
    ensures
        uuid_values(r) == uuid_values(*s),
{
    s.clone()
}

/// The entries of a map from the codes of permissions to the roles that have them.
pub uninterp spec fn grant_entries(m: IndexMap<u8, IndexSet<u128>>) -> Seq<(u8, Seq<RoleId>)>;

/// `IndexMap::new`: a map without entries.
#[verifier::external_body]
pub(crate) fn grants_new() -> (r: IndexMap<u8, IndexSet<u128>>)
    ensures
        grant_entries(r) == Seq::<(u8, Seq<RoleId>)>::empty(),
{
    IndexMap::new()
}

/// `IndexMap::get`: the value under a key. No key occurs twice in a map.
#[verifier::external_body]
pub(crate) fn grants_get(m: &IndexMap<u8, IndexSet<u128>>, code: u8) -> (r: Option<
    &IndexSet<u128>,
>)
    ensures
        match r {
            Some(v) => ordered::lookup(grant_entries(*m), code) == Some(uuid_values(*v)),
            None => ordered::lookup(grant_entries(*m), code) is None,
        },
{
    m.get(&code)
}

/// `IndexMap::insert`: puts a value under a key, which keeps its place where it is there and comes
/// last where it is not.
#[verifier::external_body]
pub(crate) fn grants_insert(m: &mut IndexMap<u8, IndexSet<u128>>, code: u8, roles: IndexSet<u128>)
    ensures
        grant_entries(*final(m)) == ordered::inserted(
            grant_entries(*old(m)),
            code,
            uuid_values(roles),
        ),
{
    m.insert(code, roles);
}

/// `IndexMap::swap_remove`: takes the entry of a key out and puts the last entry into its place.
#[verifier::external_body]
pub(crate) fn grants_swap_remove(m: &mut IndexMap<u8, IndexSet<u128>>, code: u8)
    ensures
        grant_entries(*final(m)) == ordered::swap_removed(grant_entries(*old(m)), code),
{
    m.swap_remove(&code);
}

/// `IndexMap::clone`: a map with the same entries in the same order.
#[verifier::external_body]
pub(crate) fn grants_clone(m: &CommunityPermissions) -> (r: CommunityPermissions)
    ensures
        grant_entries(r) == grant_entries(*m),
{
    m.clone()
}

/// The entries of a map of roles.
pub uninterp spec fn role_entries(m: IndexMap<u128, CommunityRole>) -> Seq<(RoleId, CommunityRole)>;

/// `IndexMap::new`: a map without entries.
#[verifier::external_body]
pub(crate) fn roles_new() -> (r: CommunityRoles)
    ensures
        role_entries(r) == Seq::<(RoleId, CommunityRole)>::empty(),
{
    IndexMap::new()
}

/// `IndexMap::len`: the number of entries.
#[verifier::external_body]
pub(crate) fn roles_len(m: &CommunityRoles) -> (r: usize)
    ensures
        r == role_entries(*m).len(),
{
    m.len()
}

/// `IndexMap::get_index`: the entry at a position. No other entry has its key.
#[verifier::external_body]
pub(crate) fn roles_at(m: &CommunityRoles, index: usize) -> (r: Option<(RoleId, &CommunityRole)>)
    ensures
        match r {
            Some((id, role)) => {
                &&& index < role_entries(*m).len()
                &&& role_entries(*m)[index as int] == (id, *role)
                &&& forall|j: int|
                    0 <= j < role_entries(*m).len() && j != index ==> (
                    #[trigger] role_entries(*m)[j]).0 != id
            },
            None => index >= role_entries(*m).len(),
        },
{
    m.get_index(index).map(|(id, role)| (*id, role))
}

/// `IndexMap::get`: the value under a key. No key occurs twice in a map.
#[verifier::external_body]
pub(crate) fn roles_get(m: &CommunityRoles, id: RoleId) -> (r: Option<&CommunityRole>)
    ensures
        match r {
            Some(role) => ordered::lookup(role_entries(*m), id) == Some(*role),
            None => ordered::lookup(role_entries(*m), id) is None,
        },
{
    m.get(&id)
}

/// `IndexMap::get_mut`: the value under a key, to be changed in its place.
#[verifier::external_body]
pub(crate) fn roles_get_mut(m: &mut CommunityRoles, id: RoleId) -> (r: Option<&mut CommunityRole>)
    ensures
        match r {
            Some(role) => {
                &&& ordered::lookup(role_entries(*old(m)), id) == Some(*role)
                &&& role_entries(*final(m)) == ordered::inserted(
                    role_entries(*old(m)),
                    id,
                    *final(role),
                )
            },
            None => ordered::lookup(role_entries(*old(m)), id) is None && *final(m) == *old(m),
        },
{
    m.get_mut(&id)
}

/// `IndexMap::insert`: puts a value under a key, which keeps its place where it is there and comes
/// last where it is not.
#[verifier::external_body]
pub(crate) fn roles_insert(m: &mut CommunityRoles, id: RoleId, role: CommunityRole)
    ensures
        role_entries(*final(m)) == ordered::inserted(role_entries(*old(m)), id, role),
{
    m.insert(id, role);
}

/// The entries of a map of invites.
pub uninterp spec fn invite_entries(
    m: IndexMap<u128, CommunityInvite>,
) -> Seq<(Uuid, CommunityInvite)>;

/// `IndexMap::new`: a map without entries.
#[verifier::external_body]
pub(crate) fn invites_new() -> (r: IndexMap<u128, CommunityInvite>)
    ensures
        invite_entries(r) == Seq::<(Uuid, CommunityInvite)>::empty(),
{
    IndexMap::new()
}

/// `IndexMap::len`: the number of entries.
#[verifier::external_body]
pub(crate) fn invites_len(m: &IndexMap<u128, CommunityInvite>) -> (r: usize)
    ensures
        r == invite_entries(*m).len(),
{
    m.len()
}

/// `IndexMap::get_index`: the entry at a position.
#[verifier::external_body]
pub(crate) fn invites_at(m: &IndexMap<u128, CommunityInvite>, index: usize) -> (r: Option<
    (Uuid, &CommunityInvite),
>)
    ensures
        match r {
            Some((id, invite)) => index < invite_entries(*m).len() && invite_entries(
                *m,
            )[index as int] == (id, *invite),
            None => index >= invite_entries(*m).len(),
        },
{
    m.get_index(index).map(|(id, invite)| (*id, invite))
}

/// `IndexMap::get`: the value under a key. No key occurs twice in a map.
#[verifier::external_body]
pub(crate) fn invites_get(m: &IndexMap<u128, CommunityInvite>, id: Uuid) -> (r: Option<
    &CommunityInvite,
>)
    ensures
        match r {
            Some(invite) => ordered::lookup(invite_entries(*m), id) == Some(*invite),
            None => ordered::lookup(invite_entries(*m), id) is None,
        },
{
    m.get(&id)
}

/// `IndexMap::insert`: puts a value under a key, which keeps its place where it is there and comes
/// last where it is not.
#[verifier::external_body]
pub(crate) fn invites_insert(
    m: &mut IndexMap<u128, CommunityInvite>,
    id: Uuid,
    invite: CommunityInvite,
)
    ensures
        invite_entries(*final(m)) == ordered::inserted(invite_entries(*old(m)), id, invite),
{
    m.insert(id, invite);
}

/// `IndexMap::swap_remove`: takes the entry of a key out and puts the last entry into its place.
#[verifier::external_body]
pub(crate) fn invites_swap_remove(m: &mut IndexMap<u128, CommunityInvite>, id: Uuid)
    ensures
        invite_entries(*final(m)) == ordered::swap_removed(invite_entries(*old(m)), id),
{
    m.swap_remove(&id);
}

/// The entries of a map of channels.
pub uninterp spec fn channel_entries(
    m: IndexMap<u128, CommunityChannel>,
) -> Seq<(Uuid, CommunityChannel)>;

/// `IndexMap::new`: a map without entries.
#[verifier::external_body]
pub(crate) fn channels_new() -> (r: IndexMap<u128, CommunityChannel>)
    ensures
        channel_entries(r) == Seq::<(Uuid, CommunityChannel)>::empty(),
{
    IndexMap::new()
}

/// `IndexMap::len`: the number of entries.
#[verifier::external_body]
pub(crate) fn channels_len(m: &IndexMap<u128, CommunityChannel>) -> (r: usize)
    ensures
        r == channel_entries(*m).len(),
{
    m.len()
}

/// `IndexMap::get_index`: the entry at a position.
#[verifier::external_body]
pub(crate) fn channels_at(m: &IndexMap<u128, CommunityChannel>, index: usize) -> (r: Option<
    (Uuid, &CommunityChannel),
>)
    ensures
        match r {
            Some((id, channel)) => index < channel_entries(*m).len() && channel_entries(
                *m,
            )[index as int] == (id, *channel),
            None => index >= channel_entries(*m).len(),
        },
{
    m.get_index(index).map(|(id, channel)| (*id, channel))
}

/// `IndexMap::get`: the value under a key. No key occurs twice in a map.
#[verifier::external_body]
pub(crate) fn channels_get(m: &IndexMap<u128, CommunityChannel>, id: Uuid) -> (r: Option<
    &CommunityChannel,
>)
    ensures
        match r {
            Some(channel) => ordered::lookup(channel_entries(*m), id) == Some(*channel),
            None => ordered::lookup(channel_entries(*m), id) is None,
        },
{
    m.get(&id)
}

/// `IndexMap::get_mut`: the value under a key, to be changed in its place.
#[verifier::external_body]
pub(crate) fn channels_get_mut(m: &mut IndexMap<u128, CommunityChannel>, id: Uuid) -> (r: Option<
    &mut CommunityChannel,
>)
    ensures
        match r {
            Some(channel) => {
                &&& ordered::lookup(channel_entries(*old(m)), id) == Some(*channel)
                &&& channel_entries(*final(m)) == ordered::inserted(
                    channel_entries(*old(m)),
                    id,
                    *final(channel),
                )
            },
            None => ordered::lookup(channel_entries(*old(m)), id) is None && *final(m) == *old(m),
        },
{
    m.get_mut(&id)
}

/// `IndexMap::insert`: puts a value under a key, which keeps its place where it is there and comes
/// last where it is not.
#[verifier::external_body]
pub(crate) fn channels_insert(
    m: &mut IndexMap<u128, CommunityChannel>,
    id: Uuid,
    channel: CommunityChannel,
)
    ensures
        channel_entries(*final(m)) == ordered::inserted(channel_entries(*old(m)), id, channel),
{
    m.insert(id, channel);
}

/// `IndexMap::swap_remove`: takes the entry of a key out and puts the last entry into its place.
#[verifier::external_body]
pub(crate) fn channels_swap_remove(m: &mut IndexMap<u128, CommunityChannel>, id: Uuid)
    ensures
        channel_entries(*final(m)) == ordered::swap_removed(channel_entries(*old(m)), id),
{
    m.swap_remove(&id);
}

} // verus!
