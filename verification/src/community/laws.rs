//! What holds of several steps in a community together.
use vstd::prelude::*;
use crate::error::Error;
use crate::ids::{Did, Timestamp, Uuid};
use crate::ordered;
use super::document::{self, CommunityDocument};
use super::tables;
use super::{
    CommunityChannel, CommunityChannelPermission, CommunityPermission, CommunityRole, RoleId,
};

verus! {

/// The creator of a community may do everything in it, and knows it.
pub proof fn creator_may_everything(
    doc: CommunityDocument,
    permission: CommunityPermission,
    channel: CommunityChannel,
    channel_permission: CommunityChannelPermission,
)
    ensures
        doc.refusal(doc.creator, permission) is None,
        doc.permits_in(channel, doc.creator, channel_permission),
{
}

/// A new community is known to its creator and to nobody else.
pub proof fn new_community_is_its_creators(
    doc: CommunityDocument,
    id: Uuid,
    creator: Did,
    name: Seq<char>,
    now: Timestamp,
    user: Did,
)
    requires
        document::is_new(doc, id, creator, name, now),
    ensures
        doc.knows(user) == (user == creator),
        doc.has_member(user) == (user == creator),
{
    assert(ordered::did_values(doc.members)[0] == creator);
}

/// A member who is given a role has every permission that the role is granted afterwards.
pub proof fn role_and_permission_suffice(
    first: CommunityDocument,
    second: CommunityDocument,
    third: CommunityDocument,
    user: Did,
    member: Did,
    role: RoleId,
    permission: CommunityPermission,
)
    requires
        ordered::distinct_keys(tables::role_entries(first.roles)),
        ordered::distinct_keys(tables::grant_entries(second.permissions)),
        document::grant_role_post(first, second, Ok(()), user, role, member),
        document::grant_permission_post(second, third, Ok(()), user, permission, role),
    ensures
        third.permits(member, permission),
{
    let roles = tables::role_entries(first.roles);
    let old_role = ordered::lookup(roles, role)->Some_0;
    let changed = choose|changed: CommunityRole|
        {
            &&& tables::role_entries(second.roles) == #[trigger] ordered::inserted(
                roles,
                role,
                changed,
            )
            &&& changed == (CommunityRole { members: changed.members, ..old_role })
            &&& ordered::did_values(changed.members) == ordered::set_inserted(
                ordered::did_values(old_role.members),
                member,
            )
        };
    ordered::insertion_is_found(roles, role, changed);
    let values = ordered::did_values(changed.members);
    if !ordered::did_values(old_role.members).contains(member) {
        assert(values[values.len() - 1] == member);
    }
    assert(document::holds(tables::role_entries(third.roles), role, member));
    let grants = tables::grant_entries(second.permissions);
    let code = permission.spec_code();
    let held = match ordered::lookup(grants, code) {
        Some(set) => set,
        None => Seq::empty(),
    };
    let set = ordered::set_inserted(held, role);
    ordered::insertion_is_found(grants, code, set);
    if !held.contains(role) {
        assert(set[set.len() - 1] == role);
    }
    let i = choose|i: int| 0 <= i < set.len() && set[i] == role;
    assert(document::holds(tables::role_entries(third.roles), set[i], member));
}

/// Who joins by an invite is a member from then on.
pub proof fn accepted_invite_makes_member(
    before: CommunityDocument,
    after: CommunityDocument,
    user: Did,
    invite_id: Uuid,
    now: Timestamp,
)
    requires
        document::accept_invite_post(before, after, Ok(()), user, invite_id, now),
    ensures
        after.has_member(user),
        after.knows(user),
{
    let values = ordered::did_values(after.members);
    if !before.has_member(user) {
        assert(values[values.len() - 1] == user);
    }
}

/// Who is taken out is no member any more.
pub proof fn removed_member_is_out(
    before: CommunityDocument,
    after: CommunityDocument,
    user: Did,
    member: Did,
)
    requires
        ordered::did_values(before.members).no_duplicates(),
        document::remove_member_post(before, after, Ok(()), user, member),
    ensures
        !after.has_member(member),
{
    let all = ordered::did_values(before.members);
    let rest = ordered::did_values(after.members);
    if all.contains(member) {
        let i = all.index_of(member);
        assert(all[i] == member);
        if rest.contains(member) {
            let k = choose|k: int| 0 <= k < rest.len() && rest[k] == member;
            let x = if k == i {
                all.len() - 1
            } else {
                k
            };
            assert(rest[k] == all[x]);
            assert(x != i);
        }
    }
}

/// A channel of which nobody is left the sight is shown to nobody but the creator.
pub proof fn revoked_channel_is_hidden(
    before: CommunityDocument,
    after: CommunityDocument,
    r: Result<&CommunityChannel, Error>,
    user: Did,
    viewer: Did,
    id: Uuid,
)
    requires
        ordered::distinct_keys(tables::channel_entries(before.channels)),
        ordered::distinct_keys(
            tables::grant_entries(
                ordered::lookup(tables::channel_entries(before.channels), id)->Some_0.permissions,
            ),
        ),
        document::revoke_channel_permission_for_all_post(
            before,
            after,
            Ok(()),
            user,
            id,
            CommunityChannelPermission::ViewChannel,
        ),
        after.knows(viewer),
        viewer != after.creator,
        document::get_channel_post(after, r, viewer, id),
    ensures
        r == Err::<&CommunityChannel, Error>(Error::Unauthorized),
{
    let channels = tables::channel_entries(before.channels);
    let old_channel = ordered::lookup(channels, id)->Some_0;
    let permission = CommunityChannelPermission::ViewChannel;
    let changed = choose|channel: CommunityChannel|
        {
            &&& tables::channel_entries(after.channels) == #[trigger] ordered::inserted(
                channels,
                id,
                channel,
            )
            &&& document::is_revoked(old_channel, channel, permission)
        };
    ordered::insertion_is_found(channels, id, changed);
    ordered::insertion_is_found(
        tables::grant_entries(old_channel.permissions),
        permission.spec_code(),
        Seq::<RoleId>::empty(),
    );
}

/// A channel whose sight is left to all is shown to everyone who knows the community.
pub proof fn granted_channel_is_shown(
    before: CommunityDocument,
    after: CommunityDocument,
    r: Result<&CommunityChannel, Error>,
    user: Did,
    viewer: Did,
    id: Uuid,
)
    requires
        ordered::distinct_keys(tables::channel_entries(before.channels)),
        ordered::distinct_keys(
            tables::grant_entries(
                ordered::lookup(tables::channel_entries(before.channels), id)->Some_0.permissions,
            ),
        ),
        document::grant_channel_permission_for_all_post(
            before,
            after,
            Ok(()),
            user,
            id,
            CommunityChannelPermission::ViewChannel,
        ),
        after.knows(viewer),
        document::get_channel_post(after, r, viewer, id),
    ensures
        r is Ok,
{
    let channels = tables::channel_entries(before.channels);
    let old_channel = ordered::lookup(channels, id)->Some_0;
    let permission = CommunityChannelPermission::ViewChannel;
    let changed = choose|channel: CommunityChannel|
        {
            &&& tables::channel_entries(after.channels) == #[trigger] ordered::inserted(
                channels,
                id,
                channel,
            )
            &&& channel == (CommunityChannel { permissions: channel.permissions, ..old_channel })
            &&& tables::grant_entries(channel.permissions) == ordered::swap_removed(
                tables::grant_entries(old_channel.permissions),
                permission.spec_code(),
            )
        };
    ordered::insertion_is_found(channels, id, changed);
    ordered::removed_key_is_gone(
        tables::grant_entries(old_channel.permissions),
        permission.spec_code(),
    );
}

/// The codes of permissions tell them apart.
pub proof fn permission_codes_are_distinct(
    a: CommunityPermission,
    b: CommunityPermission,
    c: CommunityChannelPermission,
    d: CommunityChannelPermission,
)
    ensures
        a.spec_code() == b.spec_code() <==> a == b,
        c.spec_code() == d.spec_code() <==> c == d,
{
}

} // verus!
