use warp::community::store::CommunityStore;
use warp::community::{
    CommunityChannelPermission, CommunityChannelType, CommunityPermission,
};
use warp::conversation::{MessageEventKind, RayGunEventKind};
use warp::error::Error;
use warp::ids::{Did, Timestamp, Uuid};

const DAY: Timestamp = 86_400_000_000_000;
const NOW: Timestamp = 1_700_000_000_000_000_000;
const COMMUNITY: Uuid = 1000;
const ROLE: Uuid = 2000;
const CHANNEL: Uuid = 3000;

fn account(n: u128) -> Did {
    Did { hi: 7, lo: n }
}

const A: u128 = 1;
const B: u128 = 2;
const C: u128 = 3;

/// A store in which the first account has made a community.
fn with_community() -> CommunityStore {
    let mut store = CommunityStore {
        own: account(A),
        communities: vec![],
        keystores: vec![],
        max_channels: 20,
    };
    let (community, event) =
        store.create_community(COMMUNITY, "Community0", NOW, vec![1, 2, 3]).unwrap();
    assert_eq!(community.id, COMMUNITY);
    assert_eq!(community.name, "Community0");
    assert_eq!(community.creator, account(A));
    assert!(matches!(event, RayGunEventKind::CommunityCreated { community_id: COMMUNITY }));
    store
}

fn by(store: &mut CommunityStore, who: u128) -> &mut CommunityStore {
    store.own = account(who);
    store
}

/// Invites an account and lets it accept.
fn join(store: &mut CommunityStore, who: u128) {
    let invite = by(store, A)
        .create_community_invite(COMMUNITY, 4000 + who, Some(account(who)), None, NOW)
        .unwrap();
    by(store, who).accept_community_invite(COMMUNITY, invite.id, NOW).unwrap();
}

/// Gives the second account a role with a permission.
fn grant(store: &mut CommunityStore, permission: CommunityPermission) {
    let role = by(store, A).create_community_role(COMMUNITY, ROLE, "Role0").unwrap();
    assert_eq!((role.id, role.name.as_str(), role.members.len()), (ROLE, "Role0", 0));
    by(store, A).grant_community_role(COMMUNITY, ROLE, account(B)).unwrap();
    by(store, A).grant_community_permission(COMMUNITY, permission, ROLE).unwrap();
}

fn channel(store: &mut CommunityStore) {
    let channel = by(store, A)
        .create_community_channel(
            COMMUNITY,
            CHANNEL,
            "Channel0",
            CommunityChannelType::Standard,
            NOW,
        )
        .unwrap();
    assert_eq!(channel.id, CHANNEL);
    assert_eq!(channel.name, "Channel0");
}

#[test]
fn get_community_stream() {
    let mut store = with_community();
    let invite =
        store.create_community_invite(COMMUNITY, 1, Some(account(B)), None, NOW).unwrap();
    let list = by(&mut store, B).list_communities_invited_to();
    assert_eq!(list.len(), 1);
    for (community_id, invited) in list {
        match store.accept_community_invite(community_id, invited.id, NOW).unwrap() {
            MessageEventKind::AcceptedCommunityInvite { community_id, invite_id, user } => {
                assert!(community_id == COMMUNITY);
                assert!(invite_id == invite.id);
                assert!(user == account(B));
            }
            _ => panic!("another event"),
        }
    }
}

#[test]
fn get_community_as_uninvited_user() {
    let mut store = with_community();
    let result = by(&mut store, B).get_community(COMMUNITY);
    assert_eq!(result.err(), Some(Error::InvalidCommunity));
}

#[test]
fn get_community_as_invited_user() {
    let mut store = with_community();
    store.create_community_invite(COMMUNITY, 1, Some(account(B)), Some(NOW + DAY), NOW).unwrap();
    assert_eq!(by(&mut store, B).get_community(COMMUNITY).unwrap().id, COMMUNITY);
}

#[test]
fn get_community_as_member() {
    let mut store = with_community();
    join(&mut store, B);
    assert_eq!(by(&mut store, B).get_community(COMMUNITY).unwrap().id, COMMUNITY);
}

#[test]
fn list_community_joined() {
    let mut store = with_community();
    join(&mut store, B);
    let list = by(&mut store, B).list_communities_joined();
    assert!(list.len() == 1);
    assert!(list[0] == COMMUNITY);
}

#[test]
fn list_community_invited_to() {
    let mut store = with_community();
    let invite =
        store.create_community_invite(COMMUNITY, 1, Some(account(B)), None, NOW).unwrap();
    let list = by(&mut store, B).list_communities_invited_to();
    assert!(list.len() == 1);
    let (community_id, invited_to) = &list[0];
    assert!(community_id == &COMMUNITY);
    assert!(invited_to == &invite);
}

#[test]
fn unauthorized_create_community_invite() {
    let mut store = with_community();
    join(&mut store, B);
    let result = by(&mut store, B).create_community_invite(COMMUNITY, 1, None, None, NOW);
    assert_eq!(result.err(), Some(Error::Unauthorized));
}

#[test]
fn authorized_create_community_invite() {
    let mut store = with_community();
    join(&mut store, B);
    by(&mut store, A).create_community_role(COMMUNITY, ROLE, "Role0").unwrap();
    store
        .grant_community_permission(COMMUNITY, CommunityPermission::ManageInvites, ROLE)
        .unwrap();
    store.grant_community_role(COMMUNITY, ROLE, account(B)).unwrap();
    let seen_by_a = store.get_community_role(COMMUNITY, ROLE).unwrap();
    let (name_a, members_a) = (seen_by_a.name.clone(), seen_by_a.members.clone());
    let seen_by_b = by(&mut store, B).get_community_role(COMMUNITY, ROLE).unwrap();
    assert_eq!((name_a, members_a), (seen_by_b.name.clone(), seen_by_b.members.clone()));
    let invite =
        store.create_community_invite(COMMUNITY, 1, Some(account(C)), None, NOW).unwrap();
    assert!(by(&mut store, C).accept_community_invite(COMMUNITY, invite.id, NOW).is_ok());
}

#[test]
fn unauthorized_delete_community_invite() {
    let mut store = with_community();
    join(&mut store, B);
    let invite = by(&mut store, A)
        .create_community_invite(COMMUNITY, 1, None, None, NOW)
        .unwrap();
    let result = by(&mut store, B).delete_community_invite(COMMUNITY, invite.id);
    assert_eq!(result, Err(Error::Unauthorized));
}

#[test]
fn authorized_delete_community_invite() {
    let mut store = with_community();
    join(&mut store, B);
    grant(&mut store, CommunityPermission::ManageInvites);
    let invite = store.create_community_invite(COMMUNITY, 1, None, None, NOW).unwrap();
    assert_eq!(by(&mut store, B).delete_community_invite(COMMUNITY, invite.id), Ok(()));
    let result = by(&mut store, A).get_community_invite(COMMUNITY, invite.id);
    assert_eq!(result.err(), Some(Error::CommunityInviteDoesntExist));
}

#[test]
fn get_community_invite() {
    let mut store = with_community();
    let invite =
        store.create_community_invite(COMMUNITY, 1, Some(account(B)), None, NOW).unwrap();
    assert_eq!(by(&mut store, B).get_community_invite(COMMUNITY, invite.id), Ok(invite));
}

#[test]
fn unauthorized_edit_community_invite() {
    let mut store = with_community();
    join(&mut store, B);
    let mut invite = by(&mut store, A)
        .create_community_invite(COMMUNITY, 1, None, None, NOW)
        .unwrap();
    invite.set_target_user(Some(account(B)));
    let result = by(&mut store, B).edit_community_invite(COMMUNITY, invite.id, invite);
    assert_eq!(result, Err(Error::Unauthorized));
}

#[test]
fn authorized_edit_community_invite() {
    let mut store = with_community();
    join(&mut store, B);
    grant(&mut store, CommunityPermission::ManageInvites);
    let mut invite = store.create_community_invite(COMMUNITY, 1, None, None, NOW).unwrap();
    invite.set_target_user(Some(account(B)));
    assert_eq!(by(&mut store, B).edit_community_invite(COMMUNITY, invite.id, invite), Ok(()));
    let edited = store.get_community_invite(COMMUNITY, invite.id).unwrap();
    assert_eq!(edited.target_user, Some(account(B)));
}

#[test]
fn accept_valid_community_invite() {
    let mut store = with_community();
    let invite =
        store.create_community_invite(COMMUNITY, 1, Some(account(B)), None, NOW).unwrap();
    assert!(by(&mut store, B).accept_community_invite(COMMUNITY, invite.id, NOW).is_ok());
}

#[test]
fn try_accept_wrong_target_community_invite() {
    let mut store = with_community();
    let invite =
        store.create_community_invite(COMMUNITY, 1, Some(account(C)), None, NOW).unwrap();
    let result = by(&mut store, B).accept_community_invite(COMMUNITY, invite.id, NOW);
    assert_eq!(result.err(), Some(Error::InvalidCommunity));
}

#[test]
fn try_accept_expired_community_invite() {
    let mut store = with_community();
    let invite = store
        .create_community_invite(COMMUNITY, 1, Some(account(B)), Some(NOW - DAY), NOW)
        .unwrap();
    let result = by(&mut store, B).accept_community_invite(COMMUNITY, invite.id, NOW);
    assert_eq!(result.err(), Some(Error::CommunityInviteExpired));
}

#[test]
fn unauthorized_get_community_channel() {
    let mut store = with_community();
    channel(&mut store);
    store
        .revoke_community_channel_permission_for_all(
            COMMUNITY,
            CHANNEL,
            CommunityChannelPermission::ViewChannel,
        )
        .unwrap();
    join(&mut store, B);
    let result = by(&mut store, B).get_community_channel(COMMUNITY, CHANNEL);
    assert_eq!(result.err(), Some(Error::Unauthorized));
}

#[test]
fn authorized_get_community_channel() {
    let mut store = with_community();
    channel(&mut store);
    join(&mut store, B);
    assert_eq!(by(&mut store, B).get_community_channel(COMMUNITY, CHANNEL).unwrap().id, CHANNEL);
}

#[test]
fn unauthorized_create_community_channel() {
    let mut store = with_community();
    join(&mut store, B);
    let result = by(&mut store, B).create_community_channel(
        COMMUNITY,
        CHANNEL,
        "Channel0",
        CommunityChannelType::Standard,
        NOW,
    );
    assert_eq!(result.err(), Some(Error::Unauthorized));
}

#[test]
fn authorized_create_community_channel() {
    let mut store = with_community();
    join(&mut store, B);
    grant(&mut store, CommunityPermission::ManageChannels);
    let result = by(&mut store, B).create_community_channel(
        COMMUNITY,
        CHANNEL,
        "Channel0",
        CommunityChannelType::Standard,
        NOW,
    );
    assert_eq!(result.unwrap().id, CHANNEL);
}

#[test]
fn unauthorized_delete_community_channel() {
    let mut store = with_community();
    join(&mut store, B);
    channel(&mut store);
    let result = by(&mut store, B).delete_community_channel(COMMUNITY, CHANNEL);
    assert_eq!(result, Err(Error::Unauthorized));
}

#[test]
fn authorized_delete_community_channel() {
    let mut store = with_community();
    join(&mut store, B);
    grant(&mut store, CommunityPermission::ManageChannels);
    channel(&mut store);
    assert_eq!(by(&mut store, B).delete_community_channel(COMMUNITY, CHANNEL), Ok(()));
}

#[test]
fn unauthorized_edit_community_name() {
    let mut store = with_community();
    join(&mut store, B);
    let result = by(&mut store, B).edit_community_name(COMMUNITY, "Community1");
    assert_eq!(result, Err(Error::Unauthorized));
}

#[test]
fn authorized_edit_community_name() {
    let mut store = with_community();
    join(&mut store, B);
    grant(&mut store, CommunityPermission::EditInfo);
    assert_eq!(by(&mut store, B).edit_community_name(COMMUNITY, "Community1"), Ok(()));
    assert_eq!(store.get_community(COMMUNITY).unwrap().name, "Community1");
}

#[test]
fn unauthorized_edit_community_description() {
    let mut store = with_community();
    join(&mut store, B);
    let result = by(&mut store, B)
        .edit_community_description(COMMUNITY, Some("description".to_string()));
    assert_eq!(result, Err(Error::Unauthorized));
}

#[test]
fn authorized_edit_community_description() {
    let mut store = with_community();
    join(&mut store, B);
    grant(&mut store, CommunityPermission::EditInfo);
    let result = by(&mut store, B)
        .edit_community_description(COMMUNITY, Some("description".to_string()));
    assert_eq!(result, Ok(()));
}

#[test]
fn edit_community_description_as_creator() {
    let mut store = with_community();
    let new_description = Some("description".to_string());
    store.edit_community_description(COMMUNITY, new_description.clone()).unwrap();
    let community = store.get_community(COMMUNITY).unwrap();
    assert_eq!(community.description(), new_description.as_deref());
}

#[test]
fn unauthorized_edit_community_role_name() {
    let mut store = with_community();
    store.create_community_role(COMMUNITY, ROLE, "Role0").unwrap();
    join(&mut store, B);
    let result =
        by(&mut store, B).edit_community_role_name(COMMUNITY, ROLE, "new_name".to_string());
    assert_eq!(result, Err(Error::Unauthorized));
}

#[test]
fn authorized_edit_community_role_name() {
    let mut store = with_community();
    join(&mut store, B);
    grant(&mut store, CommunityPermission::ManageRoles);
    let result =
        by(&mut store, B).edit_community_role_name(COMMUNITY, ROLE, "new_name".to_string());
    assert_eq!(result, Ok(()));
    assert_eq!(store.get_community_role(COMMUNITY, ROLE).unwrap().name, "new_name");
}

#[test]
fn unauthorized_edit_community_permissions() {
    let mut store = with_community();
    store.create_community_role(COMMUNITY, ROLE, "Role0").unwrap();
    join(&mut store, B);
    let result = by(&mut store, B)
        .grant_community_permission(COMMUNITY, CommunityPermission::EditInfo, ROLE);
    assert_eq!(result, Err(Error::Unauthorized));
}

#[test]
fn authorized_edit_community_permissions() {
    let mut store = with_community();
    join(&mut store, B);
    grant(&mut store, CommunityPermission::ManagePermissions);
    let result = by(&mut store, B)
        .grant_community_permission(COMMUNITY, CommunityPermission::EditInfo, ROLE);
    assert_eq!(result, Ok(()));
}

#[test]
fn unauthorized_remove_community_member() {
    let mut store = with_community();
    join(&mut store, B);
    join(&mut store, C);
    let result = by(&mut store, B).remove_community_member(COMMUNITY, account(C));
    assert_eq!(result, Err(Error::Unauthorized));
}

#[test]
fn authorized_remove_community_member() {
    let mut store = with_community();
    join(&mut store, B);
    join(&mut store, C);
    grant(&mut store, CommunityPermission::ManageMembers);
    assert_eq!(by(&mut store, B).remove_community_member(COMMUNITY, account(C)), Ok(()));
    assert_eq!(by(&mut store, C).list_communities_joined(), Vec::<Uuid>::new());
}

#[test]
fn unauthorized_edit_community_channel_name() {
    let mut store = with_community();
    channel(&mut store);
    join(&mut store, B);
    let result = by(&mut store, B).edit_community_channel_name(COMMUNITY, CHANNEL, "new_name");
    assert_eq!(result, Err(Error::Unauthorized));
}

#[test]
fn authorized_edit_community_channel_name() {
    let mut store = with_community();
    channel(&mut store);
    join(&mut store, B);
    grant(&mut store, CommunityPermission::ManageChannels);
    let result = by(&mut store, B).edit_community_channel_name(COMMUNITY, CHANNEL, "new_name");
    assert_eq!(result, Ok(()));
    assert_eq!(store.get_community_channel(COMMUNITY, CHANNEL).unwrap().name, "new_name");
}

#[test]
fn unauthorized_edit_community_channel_description() {
    let mut store = with_community();
    channel(&mut store);
    join(&mut store, B);
    let result = by(&mut store, B).edit_community_channel_description(
        COMMUNITY,
        CHANNEL,
        Some("description".to_string()),
    );
    assert_eq!(result, Err(Error::Unauthorized));
}

#[test]
fn authorized_edit_community_channel_description() {
    let mut store = with_community();
    channel(&mut store);
    join(&mut store, B);
    grant(&mut store, CommunityPermission::ManageChannels);
    let result = by(&mut store, B).edit_community_channel_description(
        COMMUNITY,
        CHANNEL,
        Some("description".to_string()),
    );
    assert_eq!(result, Ok(()));
}

#[test]
fn unauthorized_edit_community_channel_permissions() {
    let mut store = with_community();
    channel(&mut store);
    store
        .revoke_community_channel_permission_for_all(
            COMMUNITY,
            CHANNEL,
            CommunityChannelPermission::ViewChannel,
        )
        .unwrap();
    store.create_community_role(COMMUNITY, ROLE, "Role0").unwrap();
    join(&mut store, B);
    let result = by(&mut store, B).grant_community_channel_permission_for_all(
        COMMUNITY,
        CHANNEL,
        CommunityChannelPermission::ViewChannel,
    );
    assert_eq!(result, Err(Error::Unauthorized));
}

#[test]
fn authorized_edit_community_channel_permissions() {
    let mut store = with_community();
    channel(&mut store);
    store
        .revoke_community_channel_permission_for_all(
            COMMUNITY,
            CHANNEL,
            CommunityChannelPermission::ViewChannel,
        )
        .unwrap();
    join(&mut store, B);
    grant(&mut store, CommunityPermission::ManagePermissions);
    let result = by(&mut store, B).grant_community_channel_permission_for_all(
        COMMUNITY,
        CHANNEL,
        CommunityChannelPermission::ViewChannel,
    );
    assert_eq!(result, Ok(()));
    assert!(store.get_community_channel(COMMUNITY, CHANNEL).is_ok());
}

#[test]
fn community_names_are_bounded() {
    let mut store = with_community();
    assert!(matches!(
        store.create_community(2, "", NOW, vec![]),
        Err(Error::InvalidLength { .. })
    ));
    let long = "x".repeat(256);
    assert!(matches!(
        store.create_community(2, &long, NOW, vec![]),
        Err(Error::InvalidLength { .. })
    ));
    assert_eq!(store.communities.len(), 1);
}

#[test]
fn unknown_things_of_a_community() {
    let mut store = with_community();
    assert_eq!(store.get_community(5).err(), Some(Error::InvalidCommunity));
    assert_eq!(
        store.get_community_role(COMMUNITY, 5).err(),
        Some(Error::CommunityRoleDoesntExist)
    );
    assert_eq!(
        store.get_community_channel(COMMUNITY, 5).err(),
        Some(Error::CommunityChannelDoesntExist)
    );
}

#[test]
fn permissions_can_be_replaced() {
    let mut store = with_community();
    join(&mut store, B);
    grant(&mut store, CommunityPermission::EditInfo);
    let permissions = by(&mut store, A).get_community(COMMUNITY).unwrap().permissions;
    assert_eq!(permissions.len(), store.communities[0].permissions.len());
    store.edit_community_permissions(COMMUNITY, Default::default()).unwrap();
    let result = by(&mut store, B).edit_community_name(COMMUNITY, "Community1");
    assert_eq!(result, Err(Error::Unauthorized));
    by(&mut store, A).edit_community_permissions(COMMUNITY, permissions).unwrap();
    assert_eq!(by(&mut store, B).edit_community_name(COMMUNITY, "Community1"), Ok(()));
}

#[test]
fn members_of_a_shown_community() {
    let mut store = with_community();
    join(&mut store, B);
    channel(&mut store);
    let shown = store.get_community(COMMUNITY).unwrap();
    assert!(shown.members.contains(&(7, B)));
    assert!(!shown.members.contains(&(7, C)));
    assert!(shown.channels.contains(&CHANNEL));
    assert_eq!(shown.creator, account(A));
}

#[test]
fn permissions_have_codes_of_their_own() {
    let codes = [
        CommunityPermission::EditName,
        CommunityPermission::EditDescription,
        CommunityPermission::EditInfo,
        CommunityPermission::ManageRoles,
        CommunityPermission::ManagePermissions,
        CommunityPermission::ManageMembers,
        CommunityPermission::ManageChannels,
        CommunityPermission::ManageInvites,
    ]
    .map(|p| p.code());
    for i in 0..codes.len() {
        for j in 0..i {
            assert_ne!(codes[i], codes[j]);
        }
    }
    assert_ne!(
        CommunityChannelPermission::ViewChannel.code(),
        CommunityChannelPermission::SendMessages.code()
    );
}
