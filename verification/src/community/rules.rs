//! What each step in a community needs and does, said of what is looked up before and after.
use vstd::prelude::*;
use crate::error::{Error, LengthOf};
use crate::ids::{Did, Timestamp, Uuid};
use crate::ordered;
use crate::text;
use super::document::{self, CommunityDocument};
use super::store;
use super::tables;
use super::{
    CommunityChannel, CommunityChannelPermission, CommunityChannelPermissions,
    CommunityChannelType, CommunityInvite, CommunityPermission, CommunityPermissions,
    CommunityRole, CommunityRoles, RoleId,
};

verus! {

/// Under every key but one the same is found.
pub open spec fn same_elsewhere<K, V>(
    before: Seq<(K, V)>,
    after: Seq<(K, V)>,
    key: K,
) -> bool {
    forall|other: K|
        other != key ==> #[trigger] ordered::lookup(after, other) == ordered::lookup(
            before,
            other,
        )
}

proof fn lemma_inserted<K, V>(entries: Seq<(K, V)>, key: K, value: V)
    requires
        ordered::distinct_keys(entries),
    ensures
        ordered::lookup(ordered::inserted(entries, key, value), key) == Some(value),
        same_elsewhere(entries, ordered::inserted(entries, key, value), key),
{
    ordered::insertion_is_found(entries, key, value);
    assert forall|other: K| other != key implies #[trigger] ordered::lookup(
        ordered::inserted(entries, key, value),
        other,
    ) == ordered::lookup(entries, other) by {
        ordered::insertion_leaves_others(entries, key, value, other);
    }
}

proof fn lemma_removed<K, V>(entries: Seq<(K, V)>, key: K)
    requires
        ordered::distinct_keys(entries),
    ensures
        ordered::lookup(ordered::swap_removed(entries, key), key) is None,
        same_elsewhere(entries, ordered::swap_removed(entries, key), key),
{
    ordered::removed_key_is_gone(entries, key);
    assert forall|other: K| other != key implies #[trigger] ordered::lookup(
        ordered::swap_removed(entries, key),
        other,
    ) == ordered::lookup(entries, other) by {
        ordered::removal_leaves_others(entries, key, other);
    }
}

/// What is found under a key is what stands beside it, and nothing is found under a key that does not
/// occur.
pub proof fn found_is_what_stands_there<K, V>(entries: Seq<(K, V)>, key: K, i: int)
    requires
        ordered::distinct_keys(entries),
    ensures
        0 <= i < entries.len() && entries[i].0 == key ==> ordered::lookup(entries, key) == Some(
            entries[i].1,
        ),
        (forall|j: int| 0 <= j < entries.len() ==> (#[trigger] entries[j]).0 != key)
            ==> ordered::lookup(entries, key) is None,
{
    if 0 <= i < entries.len() && entries[i].0 == key {
        ordered::lemma_key_index(entries, key, i);
    }
}

/// A community is known to its creator, to its members, to those whom an invite names, to everyone
/// where an invite names nobody, and to nobody else.
pub proof fn known_to_those_concerned(doc: CommunityDocument, user: Did)
    ensures
        doc.knows(user) <==> {
            ||| doc.creator == user
            ||| exists|i: int|
                0 <= i < ordered::did_values(doc.members).len() && #[trigger] ordered::did_values(
                    doc.members,
                )[i] == user
            ||| exists|i: int|
                0 <= i < tables::invite_entries(doc.invites).len() && {
                    let target = (#[trigger] tables::invite_entries(doc.invites)[i]).1.target_user;
                    target is None || target == Some(user)
                }
        },
{
}

/// Whoever is not the creator has a permission exactly by a role that it holds and that is granted
/// the permission.
pub proof fn permission_comes_by_a_role(
    doc: CommunityDocument,
    user: Did,
    permission: CommunityPermission,
    g: int,
)
    requires
        ordered::distinct_keys(tables::grant_entries(doc.permissions)),
        ordered::distinct_keys(tables::role_entries(doc.roles)),
        doc.creator != user,
    ensures
        0 <= g < tables::grant_entries(doc.permissions).len() && tables::grant_entries(
            doc.permissions,
        )[g].0 == permission.spec_code() ==> (doc.permits(user, permission) <==> holds_granted(
            tables::role_entries(doc.roles),
            tables::grant_entries(doc.permissions)[g].1,
            user,
        )),
        (forall|j: int|
            0 <= j < tables::grant_entries(doc.permissions).len() ==> (
            #[trigger] tables::grant_entries(doc.permissions)[j]).0 != permission.spec_code())
            ==> !doc.permits(user, permission),
{
    let grants = tables::grant_entries(doc.permissions);
    found_is_what_stands_there(grants, permission.spec_code(), g);
    if 0 <= g < grants.len() && grants[g].0 == permission.spec_code() {
        lemma_holds(tables::role_entries(doc.roles), grants[g].1, user);
    }
}

/// In a channel everyone has a permission that is not tied to roles, and those who hold such a role
/// one that is.
pub proof fn channel_permission_is_open_or_by_a_role(
    doc: CommunityDocument,
    channel: CommunityChannel,
    user: Did,
    permission: CommunityChannelPermission,
    g: int,
)
    requires
        ordered::distinct_keys(tables::grant_entries(channel.permissions)),
        ordered::distinct_keys(tables::role_entries(doc.roles)),
        doc.creator != user,
    ensures
        0 <= g < tables::grant_entries(channel.permissions).len() && tables::grant_entries(
            channel.permissions,
        )[g].0 == permission.spec_code() ==> (doc.permits_in(channel, user, permission)
            <==> holds_granted(
            tables::role_entries(doc.roles),
            tables::grant_entries(channel.permissions)[g].1,
            user,
        )),
        (forall|j: int|
            0 <= j < tables::grant_entries(channel.permissions).len() ==> (
            #[trigger] tables::grant_entries(channel.permissions)[j]).0 != permission.spec_code())
            ==> doc.permits_in(channel, user, permission),
{
    let grants = tables::grant_entries(channel.permissions);
    found_is_what_stands_there(grants, permission.spec_code(), g);
    if 0 <= g < grants.len() && grants[g].0 == permission.spec_code() {
        lemma_holds(tables::role_entries(doc.roles), grants[g].1, user);
    }
}

/// Some role that is listed has an identity among its members.
pub open spec fn holds_granted(
    roles: Seq<(RoleId, CommunityRole)>,
    granted: Seq<RoleId>,
    user: Did,
) -> bool {
    exists|k: int, j: int|
        0 <= k < granted.len() && 0 <= j < roles.len() && #[trigger] granted[k] == (
        #[trigger] roles[j]).0 && ordered::did_values(roles[j].1.members).contains(user)
}

proof fn lemma_holds(roles: Seq<(RoleId, CommunityRole)>, granted: Seq<RoleId>, user: Did)
    requires
        ordered::distinct_keys(roles),
    ensures
        document::holds_one(roles, granted, user) <==> holds_granted(roles, granted, user),
{
    if document::holds_one(roles, granted, user) {
        let k = choose|k: int|
            0 <= k < granted.len() && document::holds(roles, #[trigger] granted[k], user);
        let j = ordered::key_index(roles, granted[k]);
        assert(roles[j].0 == granted[k]);
    }
    if holds_granted(roles, granted, user) {
        let (k, j) = choose|k: int, j: int|
            0 <= k < granted.len() && 0 <= j < roles.len() && #[trigger] granted[k] == (
            #[trigger] roles[j]).0 && ordered::did_values(roles[j].1.members).contains(user);
        found_is_what_stands_there(roles, granted[k], j);
        assert(document::holds(roles, granted[k], user));
    }
}

/// Whoever does not know a community is told that there is none, and whoever knows it and lacks the
/// permission that it may not.
pub proof fn refusal_says_why(doc: CommunityDocument, user: Did, permission: CommunityPermission)
    ensures
        doc.refusal(user, permission) is None <==> doc.knows(user) && doc.permits(user, permission),
        !doc.knows(user) ==> doc.refusal(user, permission) == Some(Error::InvalidCommunity),
        doc.knows(user) && !doc.permits(user, permission) ==> doc.refusal(user, permission) == Some(
            Error::Unauthorized,
        ),
{
}

/// A name for a community has one to 255 bytes, not counting white space around it.
pub proof fn community_name_has_a_length(name: Seq<char>)
    ensures
        document::name_refusal(name) is None <==> 1 <= text::byte_length(text::trimmed(name))
            <= 255,
        document::name_refusal(name) matches Some(e) ==> e == (Error::InvalidLength {
            context: LengthOf::Name,
            current: text::byte_length(text::trimmed(name)),
            minimum: Some(1),
            maximum: Some(255),
        }),
{
}

/// An invite can be accepted by everyone whom it is for, at every time not later than its expiry,
/// and by nobody else and at no other time. Who accepts it becomes a member.
pub proof fn invite_is_open_until_it_expires(
    before: CommunityDocument,
    after: CommunityDocument,
    r: Result<(), Error>,
    user: Did,
    id: Uuid,
    now: Timestamp,
    i: int,
)
    requires
        document::accept_invite_post(before, after, r, user, id, now),
        ordered::distinct_keys(tables::invite_entries(before.invites)),
        0 <= i < tables::invite_entries(before.invites).len(),
        tables::invite_entries(before.invites)[i].0 == id,
    ensures
        ({
            let invite = tables::invite_entries(before.invites)[i].1;
            let meant = invite.target_user is None || invite.target_user == Some(user);
            &&& r is Ok <==> meant && (invite.expiry matches Some(t) ==> now <= t)
            &&& r == Err::<(), Error>(Error::CommunityInviteExpired) <==> meant
                && invite.expiry is Some && invite.expiry->Some_0 < now
            &&& !meant && before.knows(user) ==> r == Err::<(), Error>(
                Error::CommunityInviteIncorrectUser,
            )
            &&& !meant && !before.knows(user) ==> r == Err::<(), Error>(Error::InvalidCommunity)
        }),
        r is Err ==> after == before,
        r is Ok ==> {
            &&& ordered::did_values(after.members).contains(user)
            &&& forall|other: Did|
                other != user ==> (#[trigger] ordered::did_values(after.members).contains(other)
                    <==> ordered::did_values(before.members).contains(other))
            &&& after == (CommunityDocument { members: after.members, ..before })
        },
{
    let entries = tables::invite_entries(before.invites);
    found_is_what_stands_there(entries, id, i);
    if entries[i].1.target_user is None || entries[i].1.target_user == Some(user) {
        assert(document::is_for(entries[i].1, user));
        assert(before.has_invited(user));
    }
    lemma_joined_set(ordered::did_values(before.members), user);
}

/// Nobody can accept an invite that is not there.
pub proof fn missing_invite_is_not_accepted(
    before: CommunityDocument,
    after: CommunityDocument,
    r: Result<(), Error>,
    user: Did,
    id: Uuid,
    now: Timestamp,
)
    requires
        document::accept_invite_post(before, after, r, user, id, now),
        forall|i: int|
            0 <= i < tables::invite_entries(before.invites).len() ==> (
            #[trigger] tables::invite_entries(before.invites)[i]).0 != id,
    ensures
        before.knows(user) ==> r == Err::<(), Error>(Error::CommunityInviteDoesntExist),
        !before.knows(user) ==> r == Err::<(), Error>(Error::InvalidCommunity),
        after == before,
{
}

proof fn lemma_joined_set<T>(values: Seq<T>, value: T)
    ensures
        ordered::set_inserted(values, value).contains(value),
        forall|other: T|
            other != value ==> (#[trigger] ordered::set_inserted(values, value).contains(other)
                <==> values.contains(other)),
{
    let after = ordered::set_inserted(values, value);
    if !values.contains(value) {
        assert(after[values.len() as int] == value);
    }
    assert forall|other: T| other != value implies (#[trigger] after.contains(other)
        <==> values.contains(other)) by {
        if values.contains(other) {
            let i = choose|i: int| 0 <= i < values.len() && values[i] == other;
            assert(after[i] == other);
        }
        if after.contains(other) {
            let i = choose|i: int| 0 <= i < after.len() && after[i] == other;
            assert(values[i] == other);
        }
    }
}

proof fn lemma_left_set<T>(values: Seq<T>, value: T)
    requires
        values.no_duplicates(),
    ensures
        !ordered::set_swap_removed(values, value).contains(value),
        forall|other: T|
            other != value ==> (#[trigger] ordered::set_swap_removed(values, value).contains(other)
                <==> values.contains(other)),
{
    let after = ordered::set_swap_removed(values, value);
    if values.contains(value) {
        let at = values.index_of(value);
        assert(values[at] == value);
        if after.contains(value) {
            let i = choose|i: int| 0 <= i < after.len() && after[i] == value;
            let k = if i == at {
                values.len() - 1
            } else {
                i
            };
            assert(values[k] == value);
        }
        assert forall|other: T| other != value implies (#[trigger] after.contains(other)
            <==> values.contains(other)) by {
            if values.contains(other) {
                let i = choose|i: int| 0 <= i < values.len() && values[i] == other;
                let k = if i == values.len() - 1 {
                    at
                } else {
                    i
                };
                assert(after[k] == other);
            }
            if after.contains(other) {
                let i = choose|i: int| 0 <= i < after.len() && after[i] == other;
                let k = if i == at {
                    values.len() - 1
                } else {
                    i
                };
                assert(values[k] == other);
            }
        }
    }
}

/// Whoever may manage invites makes one, as it is asked for, and it is found from then on.
pub proof fn made_invite_is_found(
    before: CommunityDocument,
    after: CommunityDocument,
    r: Result<CommunityInvite, Error>,
    user: Did,
    id: Uuid,
    target_user: Option<Did>,
    expiry: Option<Timestamp>,
    now: Timestamp,
)
    requires
        document::create_invite_post(before, after, r, user, id, target_user, expiry, now),
        ordered::distinct_keys(tables::invite_entries(before.invites)),
    ensures
        r is Ok <==> before.knows(user) && before.permits(user, CommunityPermission::ManageInvites),
        !before.knows(user) ==> r is Err && r->Err_0 == Error::InvalidCommunity,
        before.knows(user) && !before.permits(user, CommunityPermission::ManageInvites) ==> r is Err && r->Err_0
            == Error::Unauthorized,
        r is Err ==> after == before,
        r matches Ok(invite) ==> {
            &&& invite.id == id
            &&& invite.target_user == target_user
            &&& invite.expiry == expiry
            &&& invite.created == now
            &&& ordered::lookup(tables::invite_entries(after.invites), id) == Some(invite)
            &&& same_elsewhere(
                tables::invite_entries(before.invites),
                tables::invite_entries(after.invites),
                id,
            )
            &&& after == (CommunityDocument { invites: after.invites, ..before })
        },
{
    lemma_inserted(
        tables::invite_entries(before.invites),
        id,
        CommunityInvite { id, target_user, created: now, expiry },
    );
}

/// Whoever may manage invites takes one back, and it is not found any more.
pub proof fn revoked_invite_is_gone(
    before: CommunityDocument,
    after: CommunityDocument,
    r: Result<(), Error>,
    user: Did,
    id: Uuid,
)
    requires
        document::delete_invite_post(before, after, r, user, id),
        ordered::distinct_keys(tables::invite_entries(before.invites)),
    ensures
        r is Ok <==> before.knows(user) && before.permits(user, CommunityPermission::ManageInvites),
        !before.knows(user) ==> r is Err && r->Err_0 == Error::InvalidCommunity,
        before.knows(user) && !before.permits(user, CommunityPermission::ManageInvites) ==> r is Err && r->Err_0
            == Error::Unauthorized,
        r is Err ==> after == before,
        r is Ok ==> {
            &&& ordered::lookup(tables::invite_entries(after.invites), id) is None
            &&& same_elsewhere(
                tables::invite_entries(before.invites),
                tables::invite_entries(after.invites),
                id,
            )
            &&& after == (CommunityDocument { invites: after.invites, ..before })
        },
{
    lemma_removed(tables::invite_entries(before.invites), id);
}

/// An invite is shown as it stands to everyone whom the community is known to.
pub proof fn invite_is_shown_as_it_stands(
    doc: CommunityDocument,
    r: Result<CommunityInvite, Error>,
    user: Did,
    id: Uuid,
    i: int,
)
    requires
        document::get_invite_post(doc, r, user, id),
        ordered::distinct_keys(tables::invite_entries(doc.invites)),
        0 <= i < tables::invite_entries(doc.invites).len(),
        tables::invite_entries(doc.invites)[i].0 == id,
    ensures
        doc.knows(user) ==> r == Ok::<CommunityInvite, Error>(
            tables::invite_entries(doc.invites)[i].1,
        ),
        !doc.knows(user) ==> r == Err::<CommunityInvite, Error>(Error::InvalidCommunity),
{
    found_is_what_stands_there(tables::invite_entries(doc.invites), id, i);
}

/// Editing an invite changes whom it is for and when it ends, and nothing else.
pub proof fn edited_invite_keeps_the_rest(
    before: CommunityDocument,
    after: CommunityDocument,
    r: Result<(), Error>,
    user: Did,
    id: Uuid,
    edited: CommunityInvite,
    i: int,
)
    requires
        document::edit_invite_post(before, after, r, user, id, edited),
        ordered::distinct_keys(tables::invite_entries(before.invites)),
        0 <= i < tables::invite_entries(before.invites).len(),
        tables::invite_entries(before.invites)[i].0 == id,
    ensures
        r is Ok <==> before.knows(user) && before.permits(user, CommunityPermission::ManageInvites),
        !before.knows(user) ==> r is Err && r->Err_0 == Error::InvalidCommunity,
        before.knows(user) && !before.permits(user, CommunityPermission::ManageInvites) ==> r is Err && r->Err_0
            == Error::Unauthorized,
        r is Err ==> after == before,
        r is Ok ==> {
            let invite = tables::invite_entries(before.invites)[i].1;
            let found = ordered::lookup(tables::invite_entries(after.invites), id);
            &&& found is Some
            &&& found->Some_0.target_user == edited.target_user
            &&& found->Some_0.expiry == edited.expiry
            &&& found->Some_0.id == invite.id
            &&& found->Some_0.created == invite.created
            &&& same_elsewhere(
                tables::invite_entries(before.invites),
                tables::invite_entries(after.invites),
                id,
            )
            &&& after == (CommunityDocument { invites: after.invites, ..before })
        },
{
    let entries = tables::invite_entries(before.invites);
    found_is_what_stands_there(entries, id, i);
    lemma_inserted(
        entries,
        id,
        CommunityInvite {
            target_user: edited.target_user,
            expiry: edited.expiry,
            ..entries[i].1
        },
    );
}

/// Whoever may manage channels opens one, while there are fewer than allowed. It is found from then
/// on, and open to everyone.
pub proof fn opened_channel_is_found(
    before: CommunityDocument,
    after: CommunityDocument,
    r: Result<CommunityChannel, Error>,
    user: Did,
    id: Uuid,
    name: &str,
    channel_type: CommunityChannelType,
    now: Timestamp,
    max_channels: usize,
    viewer: Did,
    permission: CommunityChannelPermission,
)
    requires
        document::create_channel_post(
            before,
            after,
            r,
            user,
            id,
            name,
            channel_type,
            now,
            max_channels,
        ),
        ordered::distinct_keys(tables::channel_entries(before.channels)),
    ensures
        r is Ok <==> before.knows(user) && before.permits(user, CommunityPermission::ManageChannels)
            && tables::channel_entries(before.channels).len() < max_channels,
        !before.knows(user) ==> r is Err && r->Err_0 == Error::InvalidCommunity,
        before.knows(user) && !before.permits(user, CommunityPermission::ManageChannels) ==> r is Err && r->Err_0
            == Error::Unauthorized,
        before.knows(user) && before.permits(user, CommunityPermission::ManageChannels) && r is Err
            ==> r == Err::<CommunityChannel, Error>(Error::CommunityChannelLimitReached),
        r is Err ==> after == before,
        r is Ok ==> {
            let found = ordered::lookup(tables::channel_entries(after.channels), id);
            &&& found is Some
            &&& found->Some_0.id == id
            &&& found->Some_0.name@ == name@
            &&& found->Some_0.description is None
            &&& found->Some_0.created == now
            &&& found->Some_0.channel_type == channel_type
            &&& after.permits_in(found->Some_0, viewer, permission)
            &&& r->Ok_0.id == id
            &&& r->Ok_0.name@ == name@
            &&& r->Ok_0.channel_type == channel_type
            &&& same_elsewhere(
                tables::channel_entries(before.channels),
                tables::channel_entries(after.channels),
                id,
            )
            &&& after == (CommunityDocument { channels: after.channels, ..before })
        },
{
    if r is Ok {
        let channel = choose|channel: CommunityChannel|
            {
                &&& tables::channel_entries(after.channels) == #[trigger] ordered::inserted(
                    tables::channel_entries(before.channels),
                    id,
                    channel,
                )
                &&& document::is_new_channel(channel, id, name@, channel_type, now)
            };
        lemma_inserted(tables::channel_entries(before.channels), id, channel);
    }
}

/// Whoever may manage channels closes one, and it is not found any more.
pub proof fn closed_channel_is_gone(
    before: CommunityDocument,
    after: CommunityDocument,
    r: Result<(), Error>,
    user: Did,
    id: Uuid,
)
    requires
        document::delete_channel_post(before, after, r, user, id),
        ordered::distinct_keys(tables::channel_entries(before.channels)),
    ensures
        r is Ok <==> before.knows(user) && before.permits(user, CommunityPermission::ManageChannels),
        !before.knows(user) ==> r is Err && r->Err_0 == Error::InvalidCommunity,
        before.knows(user) && !before.permits(user, CommunityPermission::ManageChannels) ==> r is Err && r->Err_0
            == Error::Unauthorized,
        r is Err ==> after == before,
        r is Ok ==> {
            &&& ordered::lookup(tables::channel_entries(after.channels), id) is None
            &&& same_elsewhere(
                tables::channel_entries(before.channels),
                tables::channel_entries(after.channels),
                id,
            )
            &&& after == (CommunityDocument { channels: after.channels, ..before })
        },
{
    lemma_removed(tables::channel_entries(before.channels), id);
}

/// A channel is shown as it stands to those who may see it.
pub proof fn channel_is_shown_as_it_stands(
    doc: CommunityDocument,
    r: Result<&CommunityChannel, Error>,
    user: Did,
    id: Uuid,
    i: int,
)
    requires
        document::get_channel_post(doc, r, user, id),
        ordered::distinct_keys(tables::channel_entries(doc.channels)),
        0 <= i < tables::channel_entries(doc.channels).len(),
        tables::channel_entries(doc.channels)[i].0 == id,
    ensures
        r is Ok <==> doc.knows(user) && doc.permits_in(
            tables::channel_entries(doc.channels)[i].1,
            user,
            CommunityChannelPermission::ViewChannel,
        ),
        r matches Ok(channel) ==> *channel == tables::channel_entries(doc.channels)[i].1,
        doc.knows(user) && r is Err ==> r == Err::<&CommunityChannel, Error>(Error::Unauthorized),
{
    found_is_what_stands_there(tables::channel_entries(doc.channels), id, i);
}

/// The name of a community becomes what it is given by those who may edit its information.
pub proof fn given_community_name_is_kept(
    before: CommunityDocument,
    after: CommunityDocument,
    r: Result<(), Error>,
    user: Did,
    name: &str,
)
    requires
        document::edit_name_post(before, after, r, user, name),
    ensures
        r is Ok <==> before.knows(user) && before.permits(user, CommunityPermission::EditInfo),
        !before.knows(user) ==> r is Err && r->Err_0 == Error::InvalidCommunity,
        before.knows(user) && !before.permits(user, CommunityPermission::EditInfo) ==> r is Err && r->Err_0
            == Error::Unauthorized,
        r is Err ==> after == before,
        r is Ok ==> after.name@ == name@ && after == (CommunityDocument {
            name: after.name,
            ..before
        }),
{
}

/// The description of a community becomes what it is given by those who may edit its information.
pub proof fn given_community_description_is_kept(
    before: CommunityDocument,
    after: CommunityDocument,
    r: Result<(), Error>,
    user: Did,
    description: Option<String>,
)
    requires
        document::edit_description_post(before, after, r, user, description),
    ensures
        r is Ok <==> before.knows(user) && before.permits(user, CommunityPermission::EditInfo),
        !before.knows(user) ==> r is Err && r->Err_0 == Error::InvalidCommunity,
        before.knows(user) && !before.permits(user, CommunityPermission::EditInfo) ==> r is Err && r->Err_0
            == Error::Unauthorized,
        r is Err ==> after == before,
        r is Ok ==> after.description == description && after == (CommunityDocument {
            description: after.description,
            ..before
        }),
{
}

/// Whoever may manage roles makes one, which nobody holds yet.
pub proof fn made_role_is_held_by_nobody(
    before: CommunityDocument,
    after: CommunityDocument,
    r: Result<CommunityRole, Error>,
    user: Did,
    id: RoleId,
    name: &str,
    member: Did,
)
    requires
        document::create_role_post(before, after, r, user, id, name),
        ordered::distinct_keys(tables::role_entries(before.roles)),
    ensures
        r is Ok <==> before.knows(user) && before.permits(user, CommunityPermission::ManageRoles),
        !before.knows(user) ==> r is Err && r->Err_0 == Error::InvalidCommunity,
        before.knows(user) && !before.permits(user, CommunityPermission::ManageRoles) ==> r is Err && r->Err_0
            == Error::Unauthorized,
        r is Err ==> after == before,
        r matches Ok(made) ==> {
            let found = ordered::lookup(tables::role_entries(after.roles), id);
            &&& made.id == id
            &&& made.name@ == name@
            &&& found is Some
            &&& found->Some_0.id == id
            &&& found->Some_0.name@ == name@
            &&& !ordered::did_values(found->Some_0.members).contains(member)
            &&& same_elsewhere(
                tables::role_entries(before.roles),
                tables::role_entries(after.roles),
                id,
            )
            &&& after == (CommunityDocument { roles: after.roles, ..before })
        },
{
    if r is Ok {
        let role = choose|role: CommunityRole|
            {
                &&& tables::role_entries(after.roles) == #[trigger] ordered::inserted(
                    tables::role_entries(before.roles),
                    id,
                    role,
                )
                &&& document::is_new_role(role, id, name@)
            };
        lemma_inserted(tables::role_entries(before.roles), id, role);
    }
}

/// A role is shown as it stands to everyone whom the community is known to.
pub proof fn role_is_shown_as_it_stands(
    doc: CommunityDocument,
    r: Result<&CommunityRole, Error>,
    user: Did,
    id: RoleId,
    i: int,
)
    requires
        document::get_role_post(doc, r, user, id),
        ordered::distinct_keys(tables::role_entries(doc.roles)),
        0 <= i < tables::role_entries(doc.roles).len(),
        tables::role_entries(doc.roles)[i].0 == id,
    ensures
        r is Ok <==> doc.knows(user),
        r matches Ok(role) ==> *role == tables::role_entries(doc.roles)[i].1,
{
    found_is_what_stands_there(tables::role_entries(doc.roles), id, i);
}

/// Giving a role adds the one to those who hold it, and changes nobody else's.
pub proof fn given_role_is_held(
    before: CommunityDocument,
    after: CommunityDocument,
    r: Result<(), Error>,
    user: Did,
    id: RoleId,
    member: Did,
    i: int,
    other: Did,
)
    requires
        document::grant_role_post(before, after, r, user, id, member),
        ordered::distinct_keys(tables::role_entries(before.roles)),
        0 <= i < tables::role_entries(before.roles).len(),
        tables::role_entries(before.roles)[i].0 == id,
    ensures
        r is Ok <==> before.knows(user) && before.permits(user, CommunityPermission::ManageRoles),
        !before.knows(user) ==> r is Err && r->Err_0 == Error::InvalidCommunity,
        before.knows(user) && !before.permits(user, CommunityPermission::ManageRoles) ==> r is Err && r->Err_0
            == Error::Unauthorized,
        r is Err ==> after == before,
        r is Ok ==> {
            let role = tables::role_entries(before.roles)[i].1;
            let found = ordered::lookup(tables::role_entries(after.roles), id);
            &&& found is Some
            &&& found->Some_0.id == role.id
            &&& found->Some_0.name == role.name
            &&& ordered::did_values(found->Some_0.members).contains(member)
            &&& other != member ==> (ordered::did_values(found->Some_0.members).contains(other)
                <==> ordered::did_values(role.members).contains(other))
            &&& same_elsewhere(
                tables::role_entries(before.roles),
                tables::role_entries(after.roles),
                id,
            )
            &&& after == (CommunityDocument { roles: after.roles, ..before })
        },
{
    let roles = tables::role_entries(before.roles);
    found_is_what_stands_there(roles, id, i);
    if r is Ok {
        let role = roles[i].1;
        let changed = choose|changed: CommunityRole|
            {
                &&& tables::role_entries(after.roles) == #[trigger] ordered::inserted(
                    roles,
                    id,
                    changed,
                )
                &&& changed == (CommunityRole { members: changed.members, ..role })
                &&& ordered::did_values(changed.members) == ordered::set_inserted(
                    ordered::did_values(role.members),
                    member,
                )
            };
        lemma_inserted(roles, id, changed);
        lemma_joined_set(ordered::did_values(role.members), member);
    }
}

/// Renaming a role leaves those who hold it.
pub proof fn renamed_role_keeps_its_members(
    before: CommunityDocument,
    after: CommunityDocument,
    r: Result<(), Error>,
    user: Did,
    id: RoleId,
    name: String,
    i: int,
)
    requires
        document::edit_role_name_post(before, after, r, user, id, name),
        ordered::distinct_keys(tables::role_entries(before.roles)),
        0 <= i < tables::role_entries(before.roles).len(),
        tables::role_entries(before.roles)[i].0 == id,
    ensures
        r is Ok <==> before.knows(user) && before.permits(user, CommunityPermission::ManageRoles),
        !before.knows(user) ==> r is Err && r->Err_0 == Error::InvalidCommunity,
        before.knows(user) && !before.permits(user, CommunityPermission::ManageRoles) ==> r is Err && r->Err_0
            == Error::Unauthorized,
        r is Err ==> after == before,
        r is Ok ==> {
            let role = tables::role_entries(before.roles)[i].1;
            let found = ordered::lookup(tables::role_entries(after.roles), id);
            &&& found is Some
            &&& found->Some_0.name == name
            &&& found->Some_0.id == role.id
            &&& found->Some_0.members == role.members
            &&& same_elsewhere(
                tables::role_entries(before.roles),
                tables::role_entries(after.roles),
                id,
            )
            &&& after == (CommunityDocument { roles: after.roles, ..before })
        },
{
    let roles = tables::role_entries(before.roles);
    found_is_what_stands_there(roles, id, i);
    lemma_inserted(roles, id, CommunityRole { name, ..roles[i].1 });
}

/// What names a role, an invite or a channel that is not there is refused, and changes nothing.
pub proof fn missing_part_is_not_changed(
    before: CommunityDocument,
    after: CommunityDocument,
    r: Result<(), Error>,
    user: Did,
    id: Uuid,
    member: Did,
    name: String,
    edited: CommunityInvite,
    text: &str,
    permission: CommunityChannelPermission,
)
    requires
        before.knows(user),
    ensures
        document::grant_role_post(before, after, r, user, id, member) && before.permits(
            user,
            CommunityPermission::ManageRoles,
        ) && !ordered::has_key(tables::role_entries(before.roles), id) ==> r == Err::<(), Error>(
            Error::CommunityRoleDoesntExist,
        ) && after == before,
        document::edit_role_name_post(before, after, r, user, id, name) && before.permits(
            user,
            CommunityPermission::ManageRoles,
        ) && !ordered::has_key(tables::role_entries(before.roles), id) ==> r == Err::<(), Error>(
            Error::CommunityRoleDoesntExist,
        ) && after == before,
        document::edit_invite_post(before, after, r, user, id, edited) && before.permits(
            user,
            CommunityPermission::ManageInvites,
        ) && !ordered::has_key(tables::invite_entries(before.invites), id) ==> r == Err::<
            (),
            Error,
        >(Error::CommunityInviteDoesntExist) && after == before,
        document::edit_channel_name_post(before, after, r, user, id, text) && before.permits(
            user,
            CommunityPermission::ManageChannels,
        ) && !ordered::has_key(tables::channel_entries(before.channels), id) ==> r == Err::<
            (),
            Error,
        >(Error::CommunityChannelDoesntExist) && after == before,
        document::revoke_channel_permission_for_all_post(before, after, r, user, id, permission)
            && before.permits(user, CommunityPermission::ManagePermissions) && !ordered::has_key(
            tables::channel_entries(before.channels),
            id,
        ) ==> r == Err::<(), Error>(Error::CommunityChannelDoesntExist) && after == before,
{
}

/// Roles and permissions become what they are given as a whole by those who may manage them.
pub proof fn given_tables_are_kept(
    before: CommunityDocument,
    after: CommunityDocument,
    r: Result<(), Error>,
    user: Did,
    roles: CommunityRoles,
    permissions: CommunityPermissions,
)
    ensures
        document::edit_roles_post(before, after, r, user, roles) ==> {
            &&& r is Ok <==> before.knows(user) && before.permits(
                user,
                CommunityPermission::ManageRoles,
            )
            &&& r is Ok ==> after == (CommunityDocument { roles, ..before })
            &&& r is Err ==> after == before
        },
        document::edit_permissions_post(before, after, r, user, permissions) ==> {
            &&& r is Ok <==> before.knows(user) && before.permits(
                user,
                CommunityPermission::ManagePermissions,
            )
            &&& r is Ok ==> after == (CommunityDocument { permissions, ..before })
            &&& r is Err ==> after == before
        },
{
}

/// Granting a permission to a role adds the role to those that have it, and leaves all others as they
/// were.
pub proof fn granted_permission_is_the_roles(
    before: CommunityDocument,
    after: CommunityDocument,
    r: Result<(), Error>,
    user: Did,
    permission: CommunityPermission,
    role: RoleId,
    other: RoleId,
)
    requires
        document::grant_permission_post(before, after, r, user, permission, role),
        ordered::distinct_keys(tables::grant_entries(before.permissions)),
    ensures
        r is Ok <==> before.knows(user) && before.permits(
            user,
            CommunityPermission::ManagePermissions,
        ),
        !before.knows(user) ==> r is Err && r->Err_0 == Error::InvalidCommunity,
        before.knows(user) && !before.permits(user, CommunityPermission::ManagePermissions) ==> r is Err && r->Err_0
            == Error::Unauthorized,
        r is Err ==> after == before,
        r is Ok ==> {
            let held = ordered::lookup(
                tables::grant_entries(before.permissions),
                permission.spec_code(),
            );
            let holds = ordered::lookup(
                tables::grant_entries(after.permissions),
                permission.spec_code(),
            );
            &&& holds is Some
            &&& holds->Some_0.contains(role)
            &&& other != role ==> (holds->Some_0.contains(other) <==> held is Some
                && held->Some_0.contains(other))
            &&& same_elsewhere(
                tables::grant_entries(before.permissions),
                tables::grant_entries(after.permissions),
                permission.spec_code(),
            )
            &&& after == (CommunityDocument { permissions: after.permissions, ..before })
        },
{
    let grants = tables::grant_entries(before.permissions);
    let code = permission.spec_code();
    let held = match ordered::lookup(grants, code) {
        Some(set) => set,
        None => Seq::<RoleId>::empty(),
    };
    lemma_inserted(grants, code, ordered::set_inserted(held, role));
    lemma_joined_set(held, role);
}

/// Whoever may manage members takes one out, and leaves the others.
pub proof fn removed_member_goes_alone(
    before: CommunityDocument,
    after: CommunityDocument,
    r: Result<(), Error>,
    user: Did,
    member: Did,
    other: Did,
)
    requires
        document::remove_member_post(before, after, r, user, member),
        ordered::did_values(before.members).no_duplicates(),
    ensures
        r is Ok <==> before.knows(user) && before.permits(user, CommunityPermission::ManageMembers),
        !before.knows(user) ==> r is Err && r->Err_0 == Error::InvalidCommunity,
        before.knows(user) && !before.permits(user, CommunityPermission::ManageMembers) ==> r is Err && r->Err_0
            == Error::Unauthorized,
        r is Err ==> after == before,
        r is Ok ==> {
            &&& !ordered::did_values(after.members).contains(member)
            &&& other != member ==> (ordered::did_values(after.members).contains(other)
                <==> ordered::did_values(before.members).contains(other))
            &&& after == (CommunityDocument { members: after.members, ..before })
        },
{
    lemma_left_set(ordered::did_values(before.members), member);
}

/// One channel is replaced, and nothing else changes.
pub open spec fn channel_replaced(
    before: CommunityDocument,
    after: CommunityDocument,
    id: Uuid,
) -> bool {
    &&& after == (CommunityDocument { channels: after.channels, ..before })
    &&& ordered::lookup(tables::channel_entries(after.channels), id) is Some
    &&& same_elsewhere(
        tables::channel_entries(before.channels),
        tables::channel_entries(after.channels),
        id,
    )
}

/// Renaming a channel leaves the rest of it.
pub proof fn renamed_channel_keeps_the_rest(
    before: CommunityDocument,
    after: CommunityDocument,
    r: Result<(), Error>,
    user: Did,
    id: Uuid,
    name: &str,
    i: int,
)
    requires
        document::edit_channel_name_post(before, after, r, user, id, name),
        ordered::distinct_keys(tables::channel_entries(before.channels)),
        0 <= i < tables::channel_entries(before.channels).len(),
        tables::channel_entries(before.channels)[i].0 == id,
    ensures
        r is Ok <==> before.knows(user) && before.permits(user, CommunityPermission::ManageChannels),
        !before.knows(user) ==> r is Err && r->Err_0 == Error::InvalidCommunity,
        before.knows(user) && !before.permits(user, CommunityPermission::ManageChannels) ==> r is Err && r->Err_0
            == Error::Unauthorized,
        r is Err ==> after == before,
        r is Ok ==> {
            let channel = tables::channel_entries(before.channels)[i].1;
            let found = ordered::lookup(tables::channel_entries(after.channels), id)->Some_0;
            &&& channel_replaced(before, after, id)
            &&& found.name@ == name@
            &&& found == (CommunityChannel { name: found.name, ..channel })
        },
{
    let channels = tables::channel_entries(before.channels);
    found_is_what_stands_there(channels, id, i);
    if r is Ok {
        let old_channel = channels[i].1;
        let changed = choose|channel: CommunityChannel|
            {
                &&& tables::channel_entries(after.channels) == #[trigger] ordered::inserted(
                    channels,
                    id,
                    channel,
                )
                &&& channel == (CommunityChannel { name: channel.name, ..old_channel })
                &&& channel.name@ == name@
            };
        lemma_inserted(channels, id, changed);
    }
}

/// Describing a channel leaves the rest of it.
pub proof fn described_channel_keeps_the_rest(
    before: CommunityDocument,
    after: CommunityDocument,
    r: Result<(), Error>,
    user: Did,
    id: Uuid,
    description: Option<String>,
    i: int,
)
    requires
        document::edit_channel_description_post(before, after, r, user, id, description),
        ordered::distinct_keys(tables::channel_entries(before.channels)),
        0 <= i < tables::channel_entries(before.channels).len(),
        tables::channel_entries(before.channels)[i].0 == id,
    ensures
        r is Ok <==> before.knows(user) && before.permits(user, CommunityPermission::ManageChannels),
        !before.knows(user) ==> r is Err && r->Err_0 == Error::InvalidCommunity,
        before.knows(user) && !before.permits(user, CommunityPermission::ManageChannels) ==> r is Err && r->Err_0
            == Error::Unauthorized,
        r is Err ==> after == before,
        r is Ok ==> {
            let channel = tables::channel_entries(before.channels)[i].1;
            let found = ordered::lookup(tables::channel_entries(after.channels), id)->Some_0;
            &&& channel_replaced(before, after, id)
            &&& found.description == description
            &&& found == (CommunityChannel { description: found.description, ..channel })
        },
{
    let channels = tables::channel_entries(before.channels);
    found_is_what_stands_there(channels, id, i);
    if r is Ok {
        let old_channel = channels[i].1;
        let changed = choose|channel: CommunityChannel|
            {
                &&& tables::channel_entries(after.channels) == #[trigger] ordered::inserted(
                    channels,
                    id,
                    channel,
                )
                &&& channel == (CommunityChannel { description, ..old_channel })
            };
        lemma_inserted(channels, id, changed);
    }
}

/// The permissions of a channel become what they are given as a whole.
pub proof fn given_channel_permissions_are_kept(
    before: CommunityDocument,
    after: CommunityDocument,
    r: Result<(), Error>,
    user: Did,
    id: Uuid,
    permissions: CommunityChannelPermissions,
    i: int,
)
    requires
        document::edit_channel_permissions_post(before, after, r, user, id, permissions),
        ordered::distinct_keys(tables::channel_entries(before.channels)),
        0 <= i < tables::channel_entries(before.channels).len(),
        tables::channel_entries(before.channels)[i].0 == id,
    ensures
        r is Ok <==> before.knows(user) && before.permits(
            user,
            CommunityPermission::ManagePermissions,
        ),
        !before.knows(user) ==> r is Err && r->Err_0 == Error::InvalidCommunity,
        before.knows(user) && !before.permits(user, CommunityPermission::ManagePermissions) ==> r is Err && r->Err_0
            == Error::Unauthorized,
        r is Err ==> after == before,
        r is Ok ==> {
            let channel = tables::channel_entries(before.channels)[i].1;
            let found = ordered::lookup(tables::channel_entries(after.channels), id)->Some_0;
            &&& channel_replaced(before, after, id)
            &&& found.permissions == permissions
            &&& found == (CommunityChannel { permissions: found.permissions, ..channel })
        },
{
    let channels = tables::channel_entries(before.channels);
    found_is_what_stands_there(channels, id, i);
    if r is Ok {
        let old_channel = channels[i].1;
        let changed = choose|channel: CommunityChannel|
            {
                &&& tables::channel_entries(after.channels) == #[trigger] ordered::inserted(
                    channels,
                    id,
                    channel,
                )
                &&& channel == (CommunityChannel { permissions, ..old_channel })
            };
        lemma_inserted(channels, id, changed);
    }
}

/// A permission in a channel that is given to all is everyone's. The other permissions stay as they
/// were, and so does the rest of the channel.
pub proof fn permission_for_all_is_everyones(
    before: CommunityDocument,
    after: CommunityDocument,
    r: Result<(), Error>,
    user: Did,
    id: Uuid,
    permission: CommunityChannelPermission,
    i: int,
    anyone: Did,
    other: CommunityChannelPermission,
)
    requires
        document::grant_channel_permission_for_all_post(before, after, r, user, id, permission),
        ordered::distinct_keys(tables::channel_entries(before.channels)),
        0 <= i < tables::channel_entries(before.channels).len(),
        tables::channel_entries(before.channels)[i].0 == id,
        ordered::distinct_keys(
            tables::grant_entries(tables::channel_entries(before.channels)[i].1.permissions),
        ),
    ensures
        r is Ok <==> before.knows(user) && before.permits(
            user,
            CommunityPermission::ManagePermissions,
        ),
        !before.knows(user) ==> r is Err && r->Err_0 == Error::InvalidCommunity,
        before.knows(user) && !before.permits(user, CommunityPermission::ManagePermissions) ==> r is Err && r->Err_0
            == Error::Unauthorized,
        r is Err ==> after == before,
        r is Ok ==> {
            let channel = tables::channel_entries(before.channels)[i].1;
            let found = ordered::lookup(tables::channel_entries(after.channels), id)->Some_0;
            &&& channel_replaced(before, after, id)
            &&& found == (CommunityChannel { permissions: found.permissions, ..channel })
            &&& after.permits_in(found, anyone, permission)
            &&& other != permission ==> after.permits_in(found, anyone, other)
                == before.permits_in(channel, anyone, other)
        },
{
    let channels = tables::channel_entries(before.channels);
    found_is_what_stands_there(channels, id, i);
    if r is Ok {
        let old_channel = channels[i].1;
        let grants = tables::grant_entries(old_channel.permissions);
        let changed = choose|channel: CommunityChannel|
            {
                &&& tables::channel_entries(after.channels) == #[trigger] ordered::inserted(
                    channels,
                    id,
                    channel,
                )
                &&& channel == (CommunityChannel {
                    permissions: channel.permissions,
                    ..old_channel
                })
                &&& tables::grant_entries(channel.permissions) == ordered::swap_removed(
                    grants,
                    permission.spec_code(),
                )
            };
        lemma_inserted(channels, id, changed);
        lemma_removed(grants, permission.spec_code());
        if other != permission {
            assert(other.spec_code() != permission.spec_code());
            assert(ordered::lookup(
                ordered::swap_removed(grants, permission.spec_code()),
                other.spec_code(),
            ) == ordered::lookup(grants, other.spec_code()));
        }
    }
}

/// A permission in a channel that is taken from all is the creator's alone. The other permissions
/// stay as they were, and so does the rest of the channel.
pub proof fn permission_for_none_is_the_creators(
    before: CommunityDocument,
    after: CommunityDocument,
    r: Result<(), Error>,
    user: Did,
    id: Uuid,
    permission: CommunityChannelPermission,
    i: int,
    anyone: Did,
    other: CommunityChannelPermission,
)
    requires
        document::revoke_channel_permission_for_all_post(before, after, r, user, id, permission),
        ordered::distinct_keys(tables::channel_entries(before.channels)),
        0 <= i < tables::channel_entries(before.channels).len(),
        tables::channel_entries(before.channels)[i].0 == id,
        ordered::distinct_keys(
            tables::grant_entries(tables::channel_entries(before.channels)[i].1.permissions),
        ),
    ensures
        r is Ok <==> before.knows(user) && before.permits(
            user,
            CommunityPermission::ManagePermissions,
        ),
        !before.knows(user) ==> r is Err && r->Err_0 == Error::InvalidCommunity,
        before.knows(user) && !before.permits(user, CommunityPermission::ManagePermissions) ==> r is Err && r->Err_0
            == Error::Unauthorized,
        r is Err ==> after == before,
        r is Ok ==> {
            let channel = tables::channel_entries(before.channels)[i].1;
            let found = ordered::lookup(tables::channel_entries(after.channels), id)->Some_0;
            &&& channel_replaced(before, after, id)
            &&& found == (CommunityChannel { permissions: found.permissions, ..channel })
            &&& after.permits_in(found, anyone, permission) <==> anyone == before.creator
            &&& other != permission ==> after.permits_in(found, anyone, other)
                == before.permits_in(channel, anyone, other)
        },
{
    let channels = tables::channel_entries(before.channels);
    found_is_what_stands_there(channels, id, i);
    if r is Ok {
        let old_channel = channels[i].1;
        let grants = tables::grant_entries(old_channel.permissions);
        let changed = choose|channel: CommunityChannel|
            {
                &&& tables::channel_entries(after.channels) == #[trigger] ordered::inserted(
                    channels,
                    id,
                    channel,
                )
                &&& document::is_revoked(old_channel, channel, permission)
            };
        lemma_inserted(channels, id, changed);
        let none = Seq::<RoleId>::empty();
        lemma_inserted(grants, permission.spec_code(), none);
        if other != permission {
            assert(other.spec_code() != permission.spec_code());
            assert(ordered::lookup(
                ordered::inserted(grants, permission.spec_code(), none),
                other.spec_code(),
            ) == ordered::lookup(grants, other.spec_code()));
        }
    }
}

/// The communities that an identity has joined are those among whose members it is.
pub proof fn joined_are_those_with_the_member(
    communities: Seq<CommunityDocument>,
    user: Did,
    id: Uuid,
)
    ensures
        store::joined(communities, user).contains(id) <==> exists|i: int|
            0 <= i < communities.len() && (#[trigger] communities[i]).id == id
                && ordered::did_values(communities[i].members).contains(user),
        store::joined(communities, user).len() <= communities.len(),
    decreases communities.len(),
{
    if communities.len() > 0 {
        let head = communities.drop_last();
        let last = communities.last();
        joined_are_those_with_the_member(head, user, id);
        let rest = store::joined(head, user);
        let all = store::joined(communities, user);
        assert(communities[communities.len() - 1] == last);
        if rest.contains(id) {
            let k = choose|k: int| 0 <= k < rest.len() && rest[k] == id;
            assert(all[k] == id);
            let i = choose|i: int|
                0 <= i < head.len() && (#[trigger] head[i]).id == id && ordered::did_values(
                    head[i].members,
                ).contains(user);
            assert(communities[i] == head[i]);
        }
        if last.has_member(user) {
            assert(all[rest.len() as int] == last.id);
        }
        if all.contains(id) && !rest.contains(id) {
            let k = choose|k: int| 0 <= k < all.len() && all[k] == id;
            if k < rest.len() {
                assert(rest[k] == id);
            }
        }
        if exists|i: int|
            0 <= i < communities.len() && (#[trigger] communities[i]).id == id
                && ordered::did_values(communities[i].members).contains(user) {
            let i = choose|i: int|
                0 <= i < communities.len() && (#[trigger] communities[i]).id == id
                    && ordered::did_values(communities[i].members).contains(user);
            if i < head.len() {
                assert(head[i] == communities[i]);
            }
        }
    }
}

/// The invites that are listed for an identity are those that name it.
pub proof fn invited_are_those_who_are_named(
    communities: Seq<CommunityDocument>,
    user: Did,
    id: Uuid,
    invite: CommunityInvite,
)
    ensures
        store::invited_to(communities, user).contains((id, invite)) <==> invite.target_user == Some(
            user,
        ) && exists|i: int, k: int|
            0 <= i < communities.len() && communities[i].id == id && 0 <= k
                < tables::invite_entries(communities[i].invites).len()
                && #[trigger] tables::invite_entries(communities[i].invites)[k].1 == invite,
    decreases communities.len(),
{
    if communities.len() > 0 {
        let head = communities.drop_last();
        let last = communities.last();
        invited_are_those_who_are_named(head, user, id, invite);
        let entries = tables::invite_entries(last.invites);
        lemma_invites_for(last.id, entries, user, id, invite);
        let earlier = store::invited_to(head, user);
        let more = store::invites_for(last.id, entries, user);
        let all = store::invited_to(communities, user);
        let pair = (id, invite);
        assert(all == earlier + more);
        assert(all.contains(pair) <==> earlier.contains(pair) || more.contains(pair)) by {
            if earlier.contains(pair) {
                let k = choose|k: int| 0 <= k < earlier.len() && earlier[k] == pair;
                assert(all[k] == pair);
            }
            if more.contains(pair) {
                let k = choose|k: int| 0 <= k < more.len() && more[k] == pair;
                assert(all[earlier.len() + k] == pair);
            }
            if all.contains(pair) {
                let k = choose|k: int| 0 <= k < all.len() && all[k] == pair;
                if k < earlier.len() {
                    assert(earlier[k] == pair);
                } else {
                    assert(more[k - earlier.len()] == pair);
                }
            }
        }
        if earlier.contains(pair) {
            let (i, k) = choose|i: int, k: int|
                0 <= i < head.len() && head[i].id == id && 0 <= k < tables::invite_entries(
                    head[i].invites,
                ).len() && #[trigger] tables::invite_entries(head[i].invites)[k].1 == invite;
            assert(tables::invite_entries(communities[i].invites)[k].1 == invite);
        }
        if more.contains(pair) {
            let k = choose|k: int|
                0 <= k < entries.len() && #[trigger] entries[k].1 == invite;
            assert(communities[communities.len() - 1] == last);
            assert(tables::invite_entries(communities[communities.len() - 1].invites)[k].1
                == invite);
        }
        if exists|i: int, k: int|
            0 <= i < communities.len() && communities[i].id == id && 0 <= k
                < tables::invite_entries(communities[i].invites).len()
                && #[trigger] tables::invite_entries(communities[i].invites)[k].1 == invite {
            let (i, k) = choose|i: int, k: int|
                0 <= i < communities.len() && communities[i].id == id && 0 <= k
                    < tables::invite_entries(communities[i].invites).len()
                    && #[trigger] tables::invite_entries(communities[i].invites)[k].1 == invite;
            if i < head.len() {
                assert(tables::invite_entries(head[i].invites)[k].1 == invite);
            } else {
                assert(entries[k].1 == invite);
            }
        }
    }
}

proof fn lemma_invites_for(
    community: Uuid,
    entries: Seq<(Uuid, CommunityInvite)>,
    user: Did,
    id: Uuid,
    invite: CommunityInvite,
)
    ensures
        store::invites_for(community, entries, user).contains((id, invite)) <==> id == community
            && invite.target_user == Some(user) && exists|k: int|
            0 <= k < entries.len() && #[trigger] entries[k].1 == invite,
    decreases entries.len(),
{
    if entries.len() > 0 {
        let head = entries.drop_last();
        let last = entries.last();
        lemma_invites_for(community, head, user, id, invite);
        let rest = store::invites_for(community, head, user);
        let all = store::invites_for(community, entries, user);
        let pair = (id, invite);
        assert(entries[entries.len() - 1] == last);
        if rest.contains(pair) {
            let k = choose|k: int| 0 <= k < rest.len() && rest[k] == pair;
            assert(all[k] == pair);
            let i = choose|i: int| 0 <= i < head.len() && #[trigger] head[i].1 == invite;
            assert(entries[i].1 == invite);
        }
        if last.1.target_user == Some(user) {
            assert(all[rest.len() as int] == (community, last.1));
        }
        if all.contains(pair) && !rest.contains(pair) {
            let k = choose|k: int| 0 <= k < all.len() && all[k] == pair;
            if k < rest.len() {
                assert(rest[k] == pair);
            }
            assert(entries[entries.len() - 1].1 == invite);
        }
        if exists|k: int| 0 <= k < entries.len() && #[trigger] entries[k].1 == invite {
            let k = choose|k: int| 0 <= k < entries.len() && #[trigger] entries[k].1 == invite;
            if k < head.len() {
                assert(head[k].1 == invite);
            }
        }
    }
}

/// Where no community occurs twice, it is found at its place.
pub proof fn community_is_found_at_its_place(
    communities: Seq<CommunityDocument>,
    id: Uuid,
    i: int,
)
    requires
        0 <= i < communities.len(),
        communities[i].id == id,
        forall|j: int| 0 <= j < i ==> (#[trigger] communities[j]).id != id,
    ensures
        store::has_community(communities, id),
        store::community_index(communities, id) == i,
{
    assert(store::is_community_at(communities, id, i));
    let k = store::community_index(communities, id);
    assert(store::is_community_at(communities, id, k));
    if k < i {
        assert(communities[k].id != id);
    }
    if i < k {
        assert(communities[i].id != id);
    }
}

/// A community that is made is there: it comes last, or takes the place of one with its identifier. The
/// others stay where they are, and it is shown as it is made.
pub proof fn made_community_is_there(
    before: Seq<CommunityDocument>,
    after: Seq<CommunityDocument>,
    community: super::Community,
    id: Uuid,
    creator: Did,
    name: Seq<char>,
    now: Timestamp,
    i: int,
)
    requires
        store::is_added(before, after, community, id, creator, name, now),
    ensures
        community.id == id,
        community.name@ == text::trimmed(name),
        community.creator == creator,
        community.created == now,
        ordered::did_values(community.members) == seq![creator],
        (forall|j: int| 0 <= j < before.len() ==> (#[trigger] before[j]).id != id) ==> {
            &&& after.len() == before.len() + 1
            &&& after.drop_last() == before
            &&& after.last().id == id
            &&& after.last().creator == creator
            &&& after.last().name@ == text::trimmed(name)
            &&& ordered::did_values(after.last().members) == seq![creator]
            &&& tables::invite_entries(after.last().invites).len() == 0
            &&& tables::role_entries(after.last().roles).len() == 0
            &&& tables::channel_entries(after.last().channels).len() == 0
        },
        0 <= i < before.len() && before[i].id == id && (forall|j: int|
            0 <= j < i ==> (#[trigger] before[j]).id != id) ==> after.len() == before.len()
            && after[i].id == id && after[i].creator == creator && after == before.update(
            i,
            after[i],
        ),
{
    let doc = choose|doc: CommunityDocument|
        {
            &&& document::is_new(doc, id, creator, name, now)
            &&& after == #[trigger] store::with_community(before, doc)
            &&& store::shown(doc, community)
        };
    if forall|j: int| 0 <= j < before.len() ==> (#[trigger] before[j]).id != id {
        assert(!store::has_community(before, id));
        assert(after == before.push(doc));
        assert(after.drop_last() == before);
    }
    if 0 <= i < before.len() && before[i].id == id && forall|j: int|
        0 <= j < i ==> (#[trigger] before[j]).id != id {
        community_is_found_at_its_place(before, id, i);
        assert(after == before.update(i, doc));
    }
}

/// What is shown of a community is what it holds: its channels and invites by their identifiers, and its
/// roles and permissions as they are.
pub proof fn community_is_shown_as_it_is(
    doc: CommunityDocument,
    community: super::Community,
    id: Uuid,
    i: int,
)
    requires
        store::shown(doc, community),
    ensures
        community.id == doc.id,
        community.name@ == doc.name@,
        community.description is Some <==> doc.description is Some,
        community.description is Some ==> community.description->Some_0@
            == doc.description->Some_0@,
        community.creator == doc.creator,
        community.created == doc.created,
        community.modified == doc.modified,
        ordered::did_values(community.members) == ordered::did_values(doc.members),
        tables::uuid_values(community.channels).contains(id) <==> exists|k: int|
            0 <= k < tables::channel_entries(doc.channels).len() && (
            #[trigger] tables::channel_entries(doc.channels)[k]).0 == id,
        tables::uuid_values(community.invites).contains(id) <==> exists|k: int|
            0 <= k < tables::invite_entries(doc.invites).len() && (
            #[trigger] tables::invite_entries(doc.invites)[k]).0 == id,
        tables::role_entries(community.roles).len() == tables::role_entries(doc.roles).len(),
        0 <= i < tables::role_entries(doc.roles).len() ==> {
            let a = tables::role_entries(community.roles)[i];
            let b = tables::role_entries(doc.roles)[i];
            &&& a.0 == b.0
            &&& a.1.id == b.1.id
            &&& a.1.name@ == b.1.name@
            &&& ordered::did_values(a.1.members) == ordered::did_values(b.1.members)
        },
        tables::grant_entries(community.permissions) == tables::grant_entries(doc.permissions),
{
    lemma_keys_once(tables::channel_entries(doc.channels), id);
    lemma_keys_once(tables::invite_entries(doc.invites), id);
    if 0 <= i < tables::role_entries(doc.roles).len() {
        assert(tables::role_entries(community.roles)[i].0 == tables::role_entries(doc.roles)[i].0);
    }
}

proof fn lemma_keys_once<V>(entries: Seq<(Uuid, V)>, id: Uuid)
    ensures
        store::keys_once(entries).contains(id) <==> exists|k: int|
            0 <= k < entries.len() && (#[trigger] entries[k]).0 == id,
    decreases entries.len(),
{
    if entries.len() > 0 {
        let head = entries.drop_last();
        lemma_keys_once(head, id);
        let rest = store::keys_once(head);
        let last = entries.last().0;
        lemma_joined_set(rest, last);
        assert(entries[entries.len() - 1].0 == last);
        if exists|k: int| 0 <= k < head.len() && (#[trigger] head[k]).0 == id {
            let k = choose|k: int| 0 <= k < head.len() && (#[trigger] head[k]).0 == id;
            assert(entries[k] == head[k]);
        }
        if exists|k: int| 0 <= k < entries.len() && (#[trigger] entries[k]).0 == id {
            let k = choose|k: int| 0 <= k < entries.len() && (#[trigger] entries[k]).0 == id;
            if k < head.len() {
                assert(head[k] == entries[k]);
            }
        }
    }
}

/// A change of one community leaves the others as they are, and the rest of the store.
pub proof fn change_is_of_one_community(
    before: store::CommunityStore,
    after: store::CommunityStore,
    i: int,
    j: int,
)
    requires
        store::only_changed(before, after, i),
        0 <= i < before.communities@.len(),
        0 <= j < before.communities@.len(),
    ensures
        after.communities@.len() == before.communities@.len(),
        j != i ==> after.communities@[j] == before.communities@[j],
        after.own == before.own,
        after.keystores == before.keystores,
        after.max_channels == before.max_channels,
{
}

} // verus!
