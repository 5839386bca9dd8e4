use warp::conversation::document::ConversationDocument;
use warp::conversation::incoming::{
    conversation_event, ConversationUpdateKind, Keeper, MessagingEvents,
};
use warp::conversation::info::{check_stored_image, ImageKind, ImageSource};
use warp::conversation::mailbox::{
    arrivals, fetch_step, parse_mailbox, sort_newest_first, tell_arrivals, tell_mailboxes,
    Discovery, FetchOutcome, FetchStep, MailboxMessage, MailboxNotice,
};
use warp::conversation::members::{
    difference, exclusion_context, leave_signature, signature_bytes, GroupPermissionOpt,
};
use warp::conversation::message::{check_lines, Message};
use warp::conversation::{
    ConversationImageType, ConversationType, DirectEvent, Grant, GroupPermission, Limits,
    MailboxCommand, MessageEvent, MessageEventKind, Outgoing, PinState, RayGunEventKind,
    ReactionState,
};
use warp::error::{Error, LengthOf, Reason};
use warp::ids::{Cid, Did, PeerId, Timestamp, Uuid};

const GROUP: Uuid = 77;

fn did(n: u128) -> Did {
    Did { hi: 9, lo: n }
}

fn key(n: u128) -> (u128, u128) {
    (9, n)
}

fn cid(n: u128) -> Cid {
    Cid { codec: 113, hi: 0, lo: n }
}

const LIMITS: Limits = Limits {
    min_message_size: 1,
    max_message_size: 20,
    max_reactions: 2,
    max_description: 10,
    max_icon_size: 100,
    max_banner_size: 200,
};

fn lines(text: &[&str]) -> Vec<String> {
    text.iter().map(|l| l.to_string()).collect()
}

fn conversation(conversation_type: ConversationType, members: &[u128]) -> ConversationDocument {
    ConversationDocument {
        id: GROUP,
        name: None,
        description: None,
        creator: Some(did(1)),
        conversation_type,
        favorite: false,
        archived: false,
        deleted: false,
        icon: None,
        banner: None,
        permissions: Default::default(),
        recipients: members.iter().map(|n| did(*n)).collect(),
        excluded: vec![],
        restrict: vec![],
        messages: vec![],
    }
}

fn group() -> ConversationDocument {
    conversation(ConversationType::Group, &[1, 2, 3])
}

fn message(id: Uuid, sender: u128, date: Timestamp) -> Message {
    Message::new(id, GROUP, did(sender), date, lines(&["hello"]), None)
}

#[test]
fn sent_message_is_there() {
    let mut doc = group();
    let effects = doc.send_message(did(1), 5, 100, lines(&["hello", "  there "]), LIMITS).unwrap();
    assert!(effects.save);
    assert!(matches!(
        effects.event,
        Some(MessageEventKind::MessageSent { conversation_id: GROUP, message_id: 5 })
    ));
    assert!(matches!(effects.mailbox, Some(MailboxCommand::InsertMessage { message_id: 5 })));
    let publication = effects.publish.unwrap();
    assert_eq!(publication.message_id, Some(5));
    assert!(matches!(publication.event, Outgoing::New { message_id: 5 }));
    let stored = doc.get_message(5).unwrap();
    assert_eq!(stored.lines, lines(&["hello", "  there "]));
    assert_eq!(stored.sender, did(1));
    assert_eq!(doc.messages_count(), 1);
    assert!(doc.contains(5));
}

#[test]
fn lines_of_a_message_are_measured() {
    assert_eq!(check_lines(&vec![], 1, 20), Err(Error::EmptyMessage));
    assert_eq!(
        check_lines(&lines(&["  ", ""]), 1, 20),
        Err(Error::InvalidLength {
            context: LengthOf::Message,
            current: 0,
            minimum: Some(1),
            maximum: Some(20),
        })
    );
    assert_eq!(check_lines(&lines(&["  äöü  "]), 3, 3), Ok(()));
    assert_eq!(
        check_lines(&lines(&["12345678901234567890", "1"]), 1, 20),
        Err(Error::InvalidLength {
            context: LengthOf::Message,
            current: 21,
            minimum: Some(1),
            maximum: Some(20),
        })
    );
}

#[test]
fn message_occurs_once() {
    let mut doc = group();
    assert!(doc.send_message(did(1), 5, 100, lines(&["a"]), LIMITS).is_ok());
    assert_eq!(
        doc.send_message(did(1), 5, 101, lines(&["b"]), LIMITS).err(),
        Some(Error::MessageFound)
    );
    assert_eq!(doc.get_message(5).unwrap().lines, lines(&["a"]));
}

#[test]
fn reply_refers_to_its_message() {
    let mut doc = group();
    doc.send_message(did(1), 5, 100, lines(&["a"]), LIMITS).unwrap();
    doc.reply_message(did(1), 6, 101, 5, lines(&["b"]), LIMITS).unwrap();
    assert_eq!(doc.get_message(6).unwrap().replied, Some(5));
}

#[test]
fn only_the_sender_edits() {
    let mut doc = group();
    doc.insert_message(message(5, 1, 100)).unwrap();
    doc.insert_message(message(6, 2, 101)).unwrap();
    let effects = doc.edit_message(did(1), 5, lines(&["new"]), 200, LIMITS).unwrap();
    assert!(matches!(
        effects.publish.unwrap().event,
        Outgoing::Edit { message_id: 5, modified: 200 }
    ));
    assert_eq!(doc.get_message(5).unwrap().lines, lines(&["new"]));
    assert_eq!(doc.get_message(5).unwrap().modified, Some(200));
    assert_eq!(
        doc.edit_message(did(1), 6, lines(&["new"]), 200, LIMITS).err(),
        Some(Error::InvalidMessage)
    );
    assert_eq!(
        doc.edit_message(did(1), 7, lines(&["new"]), 200, LIMITS).err(),
        Some(Error::MessageNotFound)
    );
    assert_eq!(
        doc.edit_message(did(1), 5, vec![], 200, LIMITS).err(),
        Some(Error::EmptyMessage)
    );
}

#[test]
fn sending_and_deleting_leave_nothing() {
    let mut doc = group();
    doc.insert_message(message(4, 2, 99)).unwrap();
    doc.send_message(did(1), 5, 100, lines(&["a"]), LIMITS).unwrap();
    let effects = doc.delete_message(5, true).unwrap();
    assert!(matches!(
        effects.event,
        Some(MessageEventKind::MessageDeleted { conversation_id: GROUP, message_id: 5 })
    ));
    assert!(matches!(effects.publish.unwrap().event, Outgoing::Delete { message_id: 5 }));
    assert_eq!(doc.messages_count(), 1);
    assert!(!doc.contains(5));
    assert_eq!(doc.delete_message(5, true).err(), Some(Error::MessageNotFound));
}

#[test]
fn quiet_deletion_is_not_published() {
    let mut doc = group();
    doc.insert_message(message(5, 1, 100)).unwrap();
    assert!(doc.delete_message(5, false).unwrap().publish.is_none());
}

#[test]
fn pinning_and_unpinning() {
    let mut doc = group();
    doc.insert_message(message(5, 2, 100)).unwrap();
    let effects = doc.pin_message(did(1), 5, PinState::Pin).unwrap();
    assert!(matches!(
        effects.event,
        Some(MessageEventKind::MessagePinned { conversation_id: GROUP, message_id: 5 })
    ));
    assert!(doc.get_message(5).unwrap().pinned);
    let effects = doc.pin_message(did(1), 5, PinState::Unpin).unwrap();
    assert!(matches!(
        effects.event,
        Some(MessageEventKind::MessageUnpinned { conversation_id: GROUP, message_id: 5 })
    ));
    assert!(!doc.get_message(5).unwrap().pinned);
    assert_eq!(doc.pin_message(did(1), 6, PinState::Pin).err(), Some(Error::MessageNotFound));
}

#[test]
fn reaction_and_retraction_leave_nothing() {
    let mut doc = group();
    doc.insert_message(message(5, 2, 100)).unwrap();
    let emoji = || "smile".to_string();
    let effects = doc.react(did(1), 5, ReactionState::Add, emoji(), LIMITS).unwrap();
    match effects.event {
        Some(MessageEventKind::MessageReactionAdded { did_key, reaction, .. }) => {
            assert_eq!(did_key, did(1));
            assert_eq!(reaction, "smile");
        }
        _ => panic!("another event"),
    }
    assert_eq!(doc.get_message(5).unwrap().reactions.get("smile"), Some(&vec![did(1)]));
    assert_eq!(
        doc.react(did(1), 5, ReactionState::Add, emoji(), LIMITS).err(),
        Some(Error::ReactionExist)
    );
    doc.react(did(2), 5, ReactionState::Add, emoji(), LIMITS).unwrap();
    assert_eq!(
        doc.get_message(5).unwrap().reactions.get("smile"),
        Some(&vec![did(1), did(2)])
    );
    doc.react(did(2), 5, ReactionState::Remove, emoji(), LIMITS).unwrap();
    doc.react(did(1), 5, ReactionState::Remove, emoji(), LIMITS).unwrap();
    assert_eq!(doc.get_message(5).unwrap().reactions.len(), 0);
    assert_eq!(
        doc.react(did(1), 5, ReactionState::Remove, emoji(), LIMITS).err(),
        Some(Error::ReactionDoesntExist)
    );
}

#[test]
fn kinds_of_reactions_are_bounded() {
    let mut doc = group();
    doc.insert_message(message(5, 2, 100)).unwrap();
    for emoji in ["a", "b"] {
        doc.react(did(1), 5, ReactionState::Add, emoji.to_string(), LIMITS).unwrap();
    }
    assert!(matches!(
        doc.react(did(1), 5, ReactionState::Add, "c".to_string(), LIMITS),
        Err(Error::InvalidLength { context: LengthOf::Reactions, .. })
    ));
}

#[test]
fn participants_come_and_go() {
    let mut doc = group();
    let effects = doc.add_participant(did(1), did(4), false).unwrap();
    assert_eq!(doc.recipients, vec![did(1), did(2), did(3), did(4)]);
    assert!(matches!(
        effects.direct,
        Some((d, DirectEvent::NewGroupConversation { conversation_id: GROUP })) if d == did(4)
    ));
    assert_eq!(
        doc.add_participant(did(1), did(4), false).err(),
        Some(Error::IdentityExist)
    );
    doc.remove_participant(did(1), did(4), true).unwrap();
    assert_eq!(doc.recipients, vec![did(1), did(2), did(3)]);
    assert_eq!(
        doc.remove_participant(did(1), did(4), true).err(),
        Some(Error::IdentityDoesntExist)
    );
}

#[test]
fn participants_are_refused() {
    let mut doc = group();
    assert_eq!(doc.add_participant(did(2), did(4), false).err(), Some(Error::PublicKeyInvalid));
    assert_eq!(doc.add_participant(did(1), did(1), false).err(), Some(Error::PublicKeyInvalid));
    assert_eq!(doc.add_participant(did(1), did(4), true).err(), Some(Error::PublicKeyIsBlocked));
    assert_eq!(doc.remove_participant(did(2), did(3), true).err(), Some(Error::PublicKeyInvalid));
    let mut direct = conversation(ConversationType::Direct, &[1, 2]);
    assert_eq!(
        direct.add_participant(did(1), did(4), false).err(),
        Some(Error::InvalidConversation)
    );
    doc.permissions.insert(key(2), vec![GroupPermission::AddParticipants]);
    assert!(doc.has_permission(did(2), GroupPermission::AddParticipants));
    assert!(!doc.has_permission(did(2), GroupPermission::SetGroupName));
    assert!(doc.add_participant(did(2), did(4), false).is_ok());
}

#[test]
fn restricted_identity_stays_out() {
    let mut doc = group();
    assert_eq!(
        doc.add_restricted(did(1), did(4), false).err(),
        Some(Error::PublicKeyIsntBlocked)
    );
    doc.add_restricted(did(1), did(4), true).unwrap();
    assert_eq!(doc.restrict, vec![did(4)]);
    assert_eq!(doc.add_participant(did(1), did(4), false).err(), Some(Error::PublicKeyIsBlocked));
    assert_eq!(
        doc.remove_restricted(did(1), did(4), true).err(),
        Some(Error::PublicKeyIsBlocked)
    );
    doc.remove_restricted(did(1), did(4), false).unwrap();
    assert!(doc.add_participant(did(1), did(4), false).is_ok());
}

#[test]
fn left_member_is_absent() {
    let mut doc = group();
    let signature = leave_signature(&vec![1, 2, 3, 4]);
    doc.add_exclusion(did(2), did(3), signature.clone(), true).unwrap();
    assert!(doc.is_excluded(did(3)));
    assert_eq!(doc.recipients(), vec![did(1), did(2)]);
    assert_eq!(doc.excluded.len(), 1);
    assert_eq!(doc.excluded[0].signature, signature);
}

#[test]
fn creator_removes_who_leaves() {
    let mut doc = group();
    doc.add_exclusion(did(1), did(3), "no signature".to_string(), false).unwrap();
    assert_eq!(doc.recipients, vec![did(1), did(2)]);
}

#[test]
fn leaves_are_refused() {
    let refused = |reason: Reason| Some(Error::OtherWithContext(reason));
    let good = leave_signature(&vec![1]);
    let mut direct = conversation(ConversationType::Direct, &[1, 2]);
    assert_eq!(
        direct.add_exclusion(did(1), did(2), good.clone(), true).err(),
        refused(Reason::LeaveOnlyGroup)
    );
    let mut doc = group();
    assert_eq!(
        doc.add_exclusion(did(2), did(1), good.clone(), true).err(),
        refused(Reason::RemoveCreator)
    );
    assert_eq!(
        doc.add_exclusion(did(2), did(8), good.clone(), true).err(),
        refused(Reason::NotAMember { member: did(8), conversation_id: GROUP })
    );
    assert_eq!(
        doc.add_exclusion(did(2), did(3), good.clone(), false).err(),
        refused(Reason::InvalidSignature)
    );
    assert_eq!(
        doc.add_exclusion(did(2), did(3), "0OIl".to_string(), true).err(),
        refused(Reason::InvalidSignature)
    );
    doc.creator = None;
    assert_eq!(
        doc.add_exclusion(did(2), did(3), good, true).err(),
        refused(Reason::GroupWithoutCreator)
    );
}

#[test]
fn leave_texts() {
    assert_eq!(exclusion_context("did:key:z"), "exclude did:key:z");
    assert_eq!(leave_signature(&vec![0, 0, 255]), "115Q");
    assert_eq!(signature_bytes("115Q"), Some(vec![0, 0, 255]));
    assert_eq!(signature_bytes("0"), None);
}

#[test]
fn permission_differences() {
    let mut before = indexmap::IndexMap::new();
    before.insert(key(2), vec![GroupPermission::AddParticipants]);
    let mut after = indexmap::IndexMap::new();
    after.insert(key(2), vec![GroupPermission::SetGroupName]);
    after.insert(key(3), vec![GroupPermission::AddParticipants]);
    assert_eq!(
        difference(&after, &before),
        vec![
            Grant { did: did(2), permission: GroupPermission::SetGroupName },
            Grant { did: did(3), permission: GroupPermission::AddParticipants },
        ]
    );
    assert_eq!(
        difference(&before, &after),
        vec![Grant { did: did(2), permission: GroupPermission::AddParticipants }]
    );
}

#[test]
fn all_permissions_are_replaced() {
    let mut doc = group();
    let mut all = indexmap::IndexMap::new();
    all.insert(key(2), vec![GroupPermission::SetGroupName]);
    let effects = doc.update_permissions(did(1), GroupPermissionOpt::All(all)).unwrap();
    match effects.event {
        Some(MessageEventKind::ConversationPermissionsUpdated { added, removed, .. }) => {
            assert_eq!(
                added,
                vec![Grant { did: did(2), permission: GroupPermission::SetGroupName }]
            );
            assert_eq!(removed, vec![]);
        }
        _ => panic!("another event"),
    }
    assert!(doc.has_permission(did(2), GroupPermission::SetGroupName));
    assert!(doc.update_name(did(2), "Name").is_ok());
    assert_eq!(
        doc.update_permissions(did(2), GroupPermissionOpt::All(Default::default())).err(),
        Some(Error::PublicKeyInvalid)
    );
}

#[test]
fn names_are_checked() {
    let mut doc = group();
    let effects = doc.update_name(did(1), "  Name  ").unwrap();
    assert_eq!(doc.name.as_deref(), Some("Name"));
    assert!(matches!(
        effects.event,
        Some(MessageEventKind::ConversationNameUpdated { name, .. }) if name == "Name"
    ));
    assert_eq!(doc.update_name(did(2), "Other").err(), Some(Error::PublicKeyInvalid));
    assert!(matches!(
        doc.update_name(did(1), &"x".repeat(256)),
        Err(Error::InvalidLength { context: LengthOf::Name, current: 256, .. })
    ));
    let mut direct = conversation(ConversationType::Direct, &[1, 2]);
    assert_eq!(direct.update_name(did(1), "Name").err(), Some(Error::InvalidConversation));
}

#[test]
fn descriptions_are_checked() {
    let mut doc = group();
    doc.set_description(did(1), Some("short".to_string()), LIMITS).unwrap();
    assert_eq!(doc.description.as_deref(), Some("short"));
    assert!(matches!(
        doc.set_description(did(1), Some("eleven char".to_string()), LIMITS),
        Err(Error::InvalidLength { context: LengthOf::Description, current: 11, .. })
    ));
    assert_eq!(
        doc.set_description(did(2), Some("short".to_string()), LIMITS).err(),
        Some(Error::InvalidConversation)
    );
}

#[test]
fn images_of_a_conversation() {
    let mut doc = group();
    assert_eq!(doc.conversation_image(ConversationImageType::Icon).err(), Some(Error::Other));
    let source = ImageSource::Constellation {
        size: 101,
        file_type: "image/png".to_string(),
        reference: Some(cid(3)),
    };
    assert!(matches!(
        doc.prepare_image(did(1), ConversationImageType::Icon, &source, LIMITS, Keeper::Task),
        Err(Error::InvalidLength { context: LengthOf::Image, current: 101, .. })
    ));
    let source = ImageSource::Constellation {
        size: 101,
        file_type: "image/png".to_string(),
        reference: None,
    };
    assert_eq!(
        doc.prepare_image(did(1), ConversationImageType::Banner, &source, LIMITS, Keeper::Task).err(),
        Some(Error::OtherWithContext(Reason::InvalidReference))
    );
    let png = vec![0x89, b'P', b'N', b'G', 0x0d, 0x0a, 0x1a, 0x0a];
    let source = ImageSource::Stream { bytes: png, link: cid(3) };
    let dag = doc.prepare_image(did(1), ConversationImageType::Icon, &source, LIMITS, Keeper::Task).unwrap();
    assert_eq!(dag.size, 8);
    assert!(matches!(dag.mime, ImageKind::Mime(mime) if mime == "image/png"));
    let source = ImageSource::Stream { bytes: vec![1, 2, 3], link: cid(3) };
    let dag = doc.prepare_image(did(1), ConversationImageType::Icon, &source, LIMITS, Keeper::Task).unwrap();
    assert!(matches!(dag.mime, ImageKind::Other));
    let source = ImageSource::Disk { path: "/a/b.JPG".to_string(), size: 5, link: cid(3) };
    let dag = doc.prepare_image(did(1), ConversationImageType::Icon, &source, LIMITS, Keeper::Task).unwrap();
    assert!(matches!(dag.mime, ImageKind::Extension(ext) if ext == "JPG"));
    let icon = ConversationImageType::Icon;
    let read_limit = Some(Error::OtherWithContext(Reason::ReadLimit));
    let great = ImageSource::Disk { path: "b.png".to_string(), size: 101, link: cid(3) };
    let refused = doc.update_conversation_image(did(1), icon, &great, cid(4), LIMITS, Keeper::Task);
    assert_eq!(refused.err(), read_limit);
    let great = ImageSource::Stream { bytes: vec![0; 101], link: cid(3) };
    let refused = doc.prepare_image(did(1), icon, &great, LIMITS, Keeper::Task);
    assert_eq!(refused.err(), read_limit);
    let refused =
        doc.update_conversation_image(did(2), icon, &source, cid(4), LIMITS, Keeper::Task);
    assert_eq!(refused.err(), Some(Error::InvalidConversation));
    assert_eq!(doc.icon, None);
    let great = ImageSource::Constellation {
        size: 101,
        file_type: "image/png".to_string(),
        reference: Some(cid(3)),
    };
    let refused = doc.update_conversation_image(did(1), icon, &great, cid(4), LIMITS, Keeper::Task);
    assert!(matches!(refused, Err(Error::InvalidLength { current: 101, .. })));
    assert_eq!(doc.icon, None);
    let effects = doc
        .update_conversation_image(did(1), icon, &source, cid(4), LIMITS, Keeper::Task)
        .unwrap();
    assert_eq!(doc.banner, None);
    assert!(matches!(effects.event, Some(MessageEventKind::ConversationUpdatedIcon { .. })));
    assert!(matches!(effects.publish.unwrap().event, Outgoing::AddedIcon));
    assert_eq!(doc.conversation_image(ConversationImageType::Icon).ok(), Some(cid(4)));
    assert!(doc.remove_conversation_image(did(1), ConversationImageType::Icon).is_ok());
    assert_eq!(doc.icon, None);
    assert_eq!(
        doc.remove_conversation_image(did(1), ConversationImageType::Icon).err(),
        Some(Error::ObjectNotFound)
    );
    assert!(check_stored_image(200, ConversationImageType::Banner, LIMITS).is_ok());
    assert!(check_stored_image(201, ConversationImageType::Banner, LIMITS).is_err());
}

#[test]
fn archiving_and_unarchiving() {
    let mut doc = group();
    assert_eq!(doc.unarchived_conversation(), None);
    assert_eq!(
        doc.archived_conversation(),
        Some(RayGunEventKind::ConversationArchived { conversation_id: GROUP })
    );
    assert_eq!(doc.archived_conversation(), None);
    assert_eq!(
        doc.unarchived_conversation(),
        Some(RayGunEventKind::ConversationUnarchived { conversation_id: GROUP })
    );
    assert!(!doc.archived);
    doc.set_favorite_conversation(true);
    assert!(doc.favorite);
}

#[test]
fn other_member_of_a_direct_conversation() {
    let doc = conversation(ConversationType::Direct, &[1, 2]);
    assert_eq!(doc.other_member(did(1)), Some(did(2)));
    assert_eq!(doc.check_key(did(1)), Ok(()));
    let alone = conversation(ConversationType::Direct, &[1]);
    assert_eq!(alone.check_key(did(1)), Err(Error::InvalidConversation));
    assert!(group().needs_signature(did(1)));
    assert!(!group().needs_signature(did(2)));
}

fn receive(
    doc: &mut ConversationDocument,
    sender: u128,
    event: MessagingEvents,
) -> Result<warp::conversation::Effects, Error> {
    doc.message_event(did(1), did(sender), event, true, Keeper::Task, LIMITS)
}

#[test]
fn received_message_is_there() {
    let mut doc = group();
    let effects =
        receive(&mut doc, 2, MessagingEvents::New { message: message(5, 2, 100) }).unwrap();
    assert!(effects.save);
    assert!(matches!(
        effects.event,
        Some(MessageEventKind::MessageReceived { conversation_id: GROUP, message_id: 5 })
    ));
    assert!(doc.contains(5));
    assert_eq!(
        receive(&mut doc, 2, MessagingEvents::New { message: message(5, 2, 100) }).err(),
        Some(Error::MessageFound)
    );
}

#[test]
fn message_of_an_outsider_is_refused() {
    let mut doc = group();
    assert_eq!(
        receive(&mut doc, 8, MessagingEvents::New { message: message(5, 8, 100) }).err(),
        Some(Error::IdentityDoesntExist)
    );
    assert_eq!(doc.messages_count(), 0);
}

#[test]
fn received_changes_of_a_message() {
    let mut doc = group();
    doc.insert_message(message(5, 2, 100)).unwrap();
    let event = MessagingEvents::Edit {
        conversation_id: GROUP,
        message_id: 5,
        modified: 300,
        lines: lines(&["other"]),
    };
    receive(&mut doc, 2, event).unwrap();
    assert_eq!(doc.get_message(5).unwrap().lines, lines(&["other"]));
    let event = MessagingEvents::Pin {
        conversation_id: GROUP,
        member: did(2),
        message_id: 5,
        state: PinState::Pin,
    };
    receive(&mut doc, 2, event).unwrap();
    assert!(doc.get_message(5).unwrap().pinned);
    let event = MessagingEvents::React {
        conversation_id: GROUP,
        reactor: did(2),
        message_id: 5,
        state: ReactionState::Add,
        emoji: "x".to_string(),
    };
    receive(&mut doc, 2, event).unwrap();
    assert_eq!(doc.get_message(5).unwrap().reactions.get("x"), Some(&vec![did(2)]));
    let event = MessagingEvents::Delete { conversation_id: GROUP, message_id: 5 };
    receive(&mut doc, 2, event).unwrap();
    assert!(!doc.contains(5));
}

#[test]
fn received_name_is_taken_over() {
    let mut doc = group();
    doc.insert_message(message(5, 2, 100)).unwrap();
    doc.favorite = true;
    let mut received = group();
    received.name = Some("Name".to_string());
    let event = MessagingEvents::UpdateConversation {
        conversation: received,
        kind: ConversationUpdateKind::ChangeName { name: Some("Name".to_string()) },
    };
    let effects = receive(&mut doc, 1, event).unwrap();
    assert!(effects.save);
    assert_eq!(doc.name.as_deref(), Some("Name"));
    assert!(doc.favorite);
    assert!(doc.contains(5));
}

#[test]
fn received_participant_is_asked_for_its_key() {
    let mut doc = group();
    let mut received = group();
    received.recipients.push(did(4));
    let event = MessagingEvents::UpdateConversation {
        conversation: received,
        kind: ConversationUpdateKind::AddParticipant { did: did(4) },
    };
    let effects = receive(&mut doc, 1, event).unwrap();
    assert_eq!(effects.request_key, Some(did(4)));
    assert_eq!(doc.recipients.len(), 4);
}

#[test]
fn activity_is_told() {
    let event = MessagingEvents::Event {
        conversation_id: GROUP,
        member: did(2),
        event: MessageEvent::Typing,
        cancelled: false,
    };
    assert!(matches!(
        conversation_event(event),
        Ok(MessageEventKind::EventReceived { event: MessageEvent::Typing, .. })
    ));
    let event = MessagingEvents::Delete { conversation_id: GROUP, message_id: 5 };
    assert!(conversation_event(event).is_err());
}

fn waiting(id: Uuid, date: Timestamp, modified: Option<Timestamp>, verified: bool) -> MailboxMessage {
    let mut message = message(id, 2, date);
    message.modified = modified;
    MailboxMessage { message, verified }
}

#[test]
fn mailbox_is_read_by_identifier() {
    let text = "00000000-0000-0000-0000-00000000002a".to_string();
    let list = vec![("no identifier".to_string(), cid(1)), (text, cid(2))];
    let parsed = parse_mailbox(&list);
    assert_eq!(parsed.len(), 1);
    assert_eq!(parsed.get(&42), Some(&cid(2)));
}

#[test]
fn mailboxes_are_asked_until_one_answers() {
    assert!(matches!(fetch_step(FetchOutcome::TimedOut), FetchStep::Next));
    assert!(matches!(fetch_step(FetchOutcome::Closed), FetchStep::Next));
    assert!(matches!(fetch_step(FetchOutcome::Refused), FetchStep::Stop(None)));
    assert!(matches!(
        fetch_step(FetchOutcome::List(vec![("a".to_string(), cid(1))])),
        FetchStep::Stop(Some(list)) if list.len() == 1
    ));
}

#[test]
fn mailbox_is_sorted() {
    let sorted = sort_newest_first(vec![
        waiting(1, 10, None, true),
        waiting(2, 30, None, true),
        waiting(3, 20, None, true),
        waiting(4, 20, None, true),
    ]);
    let ids: Vec<Uuid> = sorted.iter().map(|m| m.message.id).collect();
    assert_eq!(ids, vec![2, 3, 4, 1]);
}

#[test]
fn mailbox_is_merged() {
    let mut doc = group();
    doc.insert_message(message(1, 2, 10)).unwrap();
    let incoming = vec![
        waiting(1, 10, Some(50), true),
        waiting(2, 30, None, true),
        waiting(3, 20, None, false),
    ];
    assert_eq!(arrivals(&incoming, Keeper::Task), vec![1, 2]);
    assert_eq!(arrivals(&incoming, Keeper::Store), vec![1, 2, 3]);
    let events = doc.load_from_mailbox(incoming);
    assert_eq!(events.len(), 2);
    assert!(matches!(events[0], MessageEventKind::MessageReceived { message_id: 2, .. }));
    assert!(matches!(events[1], MessageEventKind::MessageEdited { message_id: 1, .. }));
    assert_eq!(doc.messages_count(), 2);
    assert!(!doc.contains(3));
    let again = vec![waiting(1, 10, Some(50), true), waiting(2, 30, None, true)];
    assert_eq!(doc.load_from_mailbox(again).len(), 0);
    assert_eq!(doc.messages_count(), 2);
}

#[test]
fn every_mailbox_is_told_of_arrivals() {
    let peer = |n: u128| PeerId { hi: 0, lo: n };
    let shuttle = Discovery::Shuttle { addresses: vec![Some(peer(1)), None, Some(peer(2))] };
    assert_eq!(shuttle.mailboxes(), vec![peer(1), peer(2)]);
    assert_eq!(shuttle.next_mailbox(0), Some(peer(1)));
    assert_eq!(shuttle.next_mailbox(1), Some(peer(2)));
    assert_eq!(shuttle.next_mailbox(2), None);
    let incoming = vec![waiting(7, 10, None, true), waiting(8, 20, None, false)];
    let notice = |n: u128, message_id: Uuid| MailboxNotice {
        peer_id: peer(n),
        conversation_id: GROUP,
        command: MailboxCommand::MessageDelivered { message_id },
    };
    assert_eq!(
        tell_arrivals(&shuttle, GROUP, &incoming, Keeper::Task),
        vec![notice(1, 7), notice(2, 7)]
    );
    assert_eq!(
        tell_arrivals(&shuttle, GROUP, &incoming, Keeper::Store),
        vec![notice(1, 7), notice(2, 7), notice(1, 8), notice(2, 8)]
    );
    assert_eq!(Discovery::Other.next_mailbox(0), None);
    assert!(tell_arrivals(&Discovery::Other, GROUP, &incoming, Keeper::Store).is_empty());
    let insert = MailboxCommand::InsertMessage { message_id: 7 };
    assert_eq!(tell_mailboxes(&shuttle, GROUP, &vec![insert]).len(), 2);
}

#[test]
fn mailbox_is_told_of_oldest_first() {
    let mut doc = group();
    let events = doc.insert_messages_from_mailbox(vec![
        waiting(1, 10, None, true),
        waiting(2, 30, None, true),
    ]);
    assert!(matches!(events[0], MessageEventKind::MessageReceived { message_id: 1, .. }));
    assert!(matches!(events[1], MessageEventKind::MessageReceived { message_id: 2, .. }));
}

#[test]
fn copies_say_the_same() {
    let mut doc = group();
    doc.insert_message(message(5, 2, 100)).unwrap();
    doc.react(did(1), 5, ReactionState::Add, "x".to_string(), LIMITS).unwrap();
    doc.permissions.insert(key(2), vec![GroupPermission::SetGroupName]);
    let copy = doc.copy();
    assert_eq!(copy.recipients, doc.recipients);
    assert_eq!(copy.permissions, doc.permissions);
    assert_eq!(copy.messages[0].reactions, doc.messages[0].reactions);
    assert_eq!(copy.messages[0].lines, doc.messages[0].lines);
}
