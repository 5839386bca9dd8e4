use warp::conversation::attach::{AttachStep, Location};
use warp::conversation::document::ConversationDocument;
use warp::conversation::exchange::KeySource;
use warp::conversation::identities::{Measure, MultiPassEventKind};
use warp::conversation::incoming::{ConversationUpdateKind, MessagingEvents};
use warp::conversation::info::ImageSource;
use warp::conversation::members::{leave_signature, GroupPermissionOpt};
use warp::conversation::message::Message;
use warp::conversation::notices::{Circumstances, ConversationEvents, Outcome};
use warp::conversation::queue::{Delivery, Queue};
use warp::conversation::requests::{ConversationRequestResponse, Exchanged};
use warp::conversation::schedule::{StoreInput, StoreWork, TaskInput, TaskWork, Timers};
use warp::conversation::store::ConversationInner;
use warp::conversation::task::{
    Answer, ConversationKey, ConversationRequestKind, ConversationResponseKind, FollowUp, Reception,
};
use warp::conversation::{
    ConversationImageType, ConversationType, GroupPermission, Limits, MessageEvent, MessageEventKind, MessageStatus,
    Outgoing, PinState, RayGunEventKind, ReactionState,
};
use warp::error::{Error, LengthOf, Reason};
use warp::ids::{Cid, Did, Uuid};

const DIRECT: Uuid = 10;
const GROUP: Uuid = 20;

fn did(n: u128) -> Did {
    Did { hi: 3, lo: n }
}

fn lines(text: &str) -> Vec<String> {
    vec![text.to_string()]
}

fn empty() -> ConversationInner {
    ConversationInner {
        own: did(1),
        conversations: vec![],
        keystores: vec![],
        open: vec![],
        pending_key_exchange: vec![],
        queue: Queue::new(),
        limits: Limits {
            min_message_size: 1,
            max_message_size: 100,
            max_reactions: 5,
            max_description: 50,
            max_icon_size: 1000,
            max_banner_size: 1000,
        },
    }
}

/// A store with a direct conversation with the second identity and a group of three.
fn store() -> ConversationInner {
    let mut store = empty();
    store.create_conversation(did(2), false, DIRECT).unwrap();
    store
        .create_group_conversation(
            GROUP,
            Some("Group".to_string()),
            &vec![did(2), did(3)],
            &vec![],
            vec![],
            GroupPermissionOpt::All(Default::default()),
            vec![9, 9],
        )
        .unwrap();
    store
}

fn about(sender: u128, shared_id: Uuid) -> Circumstances {
    Circumstances {
        sender: did(sender),
        shared_id,
        blocked: false,
        genuine: true,
        fresh_key: vec![7],
    }
}

#[test]
fn direct_conversation_is_made_once() {
    let mut store = empty();
    let created = store.create_conversation(did(2), false, DIRECT).unwrap();
    assert_eq!(created.event, RayGunEventKind::ConversationCreated { conversation_id: DIRECT });
    assert_eq!(created.tell, vec![did(2)]);
    assert!(store.contains(DIRECT));
    assert!(store.is_open(DIRECT));
    assert_eq!(
        store.create_conversation(did(2), false, 11).err(),
        Some(Error::ConversationExist { conversation_id: DIRECT })
    );
    assert_eq!(
        store.create_conversation(did(1), false, 11).err(),
        Some(Error::CannotCreateConversation)
    );
    assert_eq!(
        store.create_conversation(did(3), true, 11).err(),
        Some(Error::PublicKeyIsBlocked)
    );
    assert_eq!(store.conversations.len(), 1);
}

#[test]
fn group_is_made() {
    let mut store = empty();
    let created = store
        .create_group_conversation(
            GROUP,
            Some("Group".to_string()),
            &vec![did(2), did(3), did(4)],
            &vec![did(4)],
            vec![did(5)],
            GroupPermissionOpt::Single(did(2), vec![GroupPermission::SetGroupName]),
            vec![9, 9],
        )
        .unwrap();
    assert_eq!(created.tell, vec![did(2), did(3)]);
    let doc = store.get(GROUP).unwrap();
    assert_eq!(doc.recipients, vec![did(2), did(3), did(1)]);
    assert_eq!(doc.creator, Some(did(1)));
    assert!(doc.has_permission(did(2), GroupPermission::SetGroupName));
    assert_eq!(store.get_keystore(GROUP).unwrap().keys[0].key, vec![9, 9]);
    assert!(matches!(
        store.create_group_conversation(
            21,
            Some("  ".to_string()),
            &vec![did(2)],
            &vec![],
            vec![],
            GroupPermissionOpt::All(Default::default()),
            vec![],
        ),
        Err(Error::InvalidLength { context: LengthOf::Name, current: 0, .. })
    ));
    assert_eq!(
        store
            .create_group_conversation(
                21,
                None,
                &vec![did(1)],
                &vec![],
                vec![],
                GroupPermissionOpt::All(Default::default()),
                vec![],
            )
            .err(),
        Some(Error::CannotCreateConversation)
    );
}

#[test]
fn deleted_conversation_is_gone() {
    let mut store = store();
    let deleted = store.delete_conversation(GROUP, true).unwrap();
    assert!(deleted.document.deleted);
    let farewell = deleted.farewell.unwrap();
    assert_eq!(farewell.event, RayGunEventKind::ConversationDeleted { conversation_id: GROUP });
    assert_eq!(farewell.tell, vec![did(2), did(3)]);
    assert!(!store.contains(GROUP));
    assert!(store.contains(DIRECT));
    assert_eq!(store.get(GROUP).err(), Some(Error::InvalidConversation));
    assert_eq!(store.delete_conversation(GROUP, true).err(), Some(Error::InvalidConversation));
}

#[test]
fn group_of_another_is_left() {
    let mut store = store();
    store.conversations[1].creator = Some(did(2));
    let farewell = store.delete_conversation(GROUP, true).unwrap().farewell.unwrap();
    assert_eq!(farewell.leave, Some((did(2), vec![did(3)])));
    assert_eq!(farewell.tell, vec![]);
}

#[test]
fn messages_in_the_store() {
    let mut store = store();
    store.send_message(DIRECT, 5, 100, lines("hello")).unwrap();
    store.reply_message(DIRECT, 6, 101, 5, lines("again")).unwrap();
    store.edit_message(DIRECT, 5, lines("other"), 102).unwrap();
    store.pin_message(DIRECT, 5, PinState::Pin).unwrap();
    store.react(DIRECT, 5, ReactionState::Add, "x".to_string()).unwrap();
    let doc = store.get(DIRECT).unwrap();
    assert_eq!(doc.messages_count(), 2);
    assert_eq!(doc.get_message(5).unwrap().lines, lines("other"));
    assert!(doc.get_message(5).unwrap().pinned);
    store.delete_message(DIRECT, 5, true).unwrap();
    assert_eq!(store.get(DIRECT).unwrap().messages_count(), 1);
    assert_eq!(store.send_message(30, 7, 1, lines("a")).err(), Some(Error::InvalidConversation));
}

#[test]
fn group_without_keystore_is_mute() {
    let mut store = store();
    store.remove_keystore(GROUP);
    let missing = Some(Error::OtherWithContext(Reason::KeystoreMissing));
    assert_eq!(store.send_message(GROUP, 5, 100, lines("hello")).err(), missing);
    assert_eq!(store.send_message(GROUP, 5, 100, vec![]).err(), Some(Error::EmptyMessage));
    assert_eq!(store.pin_message(GROUP, 5, PinState::Pin).err(), missing);
    let message = Message::new(5, GROUP, did(2), 100, lines("hello"), None);
    assert_eq!(
        store.message_event(GROUP, did(2), MessagingEvents::New { message }, true).err(),
        missing
    );
    assert_eq!(store.get_keystore(GROUP).err(), missing);
    assert!(store.send_message(DIRECT, 5, 100, lines("hello")).is_ok());
}

#[test]
fn member_comes_in_and_goes_out() {
    let mut store = store();
    store.add_recipient(GROUP, did(4), false).unwrap();
    assert_eq!(store.get(GROUP).unwrap().recipients, vec![did(2), did(3), did(1), did(4)]);
    store.remove_recipient(GROUP, did(4), true).unwrap();
    assert_eq!(store.get(GROUP).unwrap().recipients, vec![did(2), did(3), did(1)]);
    assert_eq!(
        store.add_recipient(DIRECT, did(4), false).err(),
        Some(Error::InvalidConversation)
    );
}

#[test]
fn settings_of_a_conversation() {
    let mut store = store();
    store.update_conversation_name(GROUP, "Other").unwrap();
    store.set_description(GROUP, Some("About".to_string())).unwrap();
    store.set_favorite_conversation(GROUP, true).unwrap();
    assert_eq!(
        store.archived_conversation(GROUP),
        Ok(Some(RayGunEventKind::ConversationArchived { conversation_id: GROUP }))
    );
    let doc = store.get(GROUP).unwrap();
    assert_eq!(doc.name.as_deref(), Some("Other"));
    assert_eq!(doc.description.as_deref(), Some("About"));
    assert!(doc.favorite && doc.archived);
    assert_eq!(
        store.unarchived_conversation(GROUP),
        Ok(Some(RayGunEventKind::ConversationUnarchived { conversation_id: GROUP }))
    );
    assert_eq!(store.archived_conversation(30), Err(Error::InvalidConversation));
}

#[test]
fn files_in_the_store() {
    let mut store = store();
    let file = || vec![Location::Stream { name: "a".to_string() }];
    let attaching =
        store.attach(GROUP, 9, Some(5), file(), lines("see"), &vec!["a".to_string()]).unwrap();
    assert_eq!((attaching.id, attaching.replied), (9, Some(5)));
    assert_eq!((attaching.conversation_id, attaching.own), (GROUP, did(1)));
    assert!(matches!(
        &attaching.steps[0],
        AttachStep::Upload { name, .. } if name == "a (1)"
    ));
    assert_eq!(
        store.attach(30, 9, None, file(), vec![], &vec![]).err(),
        Some(Error::InvalidConversation)
    );
    assert_eq!(
        store.attach(GROUP, 9, None, vec![], vec![], &vec![]).err(),
        Some(Error::NoAttachments)
    );
    store.remove_keystore(GROUP);
    assert_eq!(
        store.attach(GROUP, 9, None, file(), vec![], &vec![]).err(),
        Some(Error::OtherWithContext(Reason::KeystoreMissing))
    );
}

#[test]
fn images_in_the_store() {
    let mut store = store();
    let cid = Cid { codec: 113, hi: 0, lo: 4 };
    let banner = ConversationImageType::Banner;
    let nothing = ImageSource::Constellation {
        size: 5,
        file_type: "image/png".to_string(),
        reference: None,
    };
    assert_eq!(store.prepare_image(GROUP, banner, &nothing).err(), Some(Error::Other));
    assert_eq!(
        store.update_conversation_image(GROUP, banner, &nothing, cid).err(),
        Some(Error::Other)
    );
    let source = ImageSource::Stream { bytes: vec![1, 2], link: cid };
    assert_eq!(store.prepare_image(GROUP, banner, &source).unwrap().size, 2);
    let effects = store.update_conversation_image(GROUP, banner, &source, cid).unwrap();
    assert!(matches!(effects.publish.unwrap().event, Outgoing::AddedBanner));
    assert_eq!(store.conversation_image(GROUP, banner), Ok(cid));
    store.own = did(2);
    let other = Cid { codec: 113, hi: 0, lo: 5 };
    assert_eq!(
        store.update_conversation_image(GROUP, banner, &source, other).err(),
        Some(Error::InvalidConversation)
    );
    assert_eq!(store.conversation_image(GROUP, banner), Ok(cid));
    assert_eq!(
        store.update_conversation_image(30, banner, &source, cid).err(),
        Some(Error::InvalidConversation)
    );
}

#[test]
fn received_events_reach_their_conversation() {
    let mut store = store();
    let message = Message::new(5, DIRECT, did(2), 100, lines("hello"), None);
    let effects =
        store.message_event(DIRECT, did(2), MessagingEvents::New { message }, true).unwrap();
    assert!(matches!(effects.event, Some(MessageEventKind::MessageReceived { .. })));
    assert_eq!(store.get(DIRECT).unwrap().messages_count(), 1);
    assert_eq!(store.get(GROUP).unwrap().messages_count(), 0);
}

fn renamed(mut conversation: ConversationDocument) -> MessagingEvents {
    conversation.name = Some("New".to_string());
    MessagingEvents::UpdateConversation {
        conversation,
        kind: ConversationUpdateKind::ChangeName { name: Some("New".to_string()) },
    }
}

#[test]
fn update_of_another_conversation_is_stored_there() {
    let mut store = store();
    store.send_message(GROUP, 5, 100, lines("hello")).unwrap();
    let mut carried = store.get(GROUP).unwrap().copy();
    carried.id = 99;
    store.message_event(GROUP, did(1), renamed(carried), true).unwrap();
    assert_eq!(store.get(GROUP).unwrap().name.as_deref(), Some("Group"));
    assert_eq!(store.get(99).unwrap().name.as_deref(), Some("New"));
    assert_eq!(store.get(99).unwrap().messages_count(), 1);
    let own = store.get(GROUP).unwrap().copy();
    store.message_event(GROUP, did(1), renamed(own), true).unwrap();
    assert_eq!(store.get(GROUP).unwrap().name.as_deref(), Some("New"));
}

#[test]
fn announced_conversations() {
    let mut store = empty();
    let event = ConversationEvents::NewConversation { recipient: did(2) };
    let notice = store.process_conversation(event, about(2, DIRECT));
    assert!(matches!(notice.outcome, Ok(Outcome::Opened { .. })));
    assert!(store.contains(DIRECT));
    let event = ConversationEvents::NewConversation { recipient: did(2) };
    let notice = store.process_conversation(event, about(2, DIRECT));
    assert!(matches!(notice.outcome, Ok(Outcome::Ignored)));
    let event = ConversationEvents::NewConversation { recipient: did(3) };
    let mut blocked = about(3, 11);
    blocked.blocked = true;
    let notice = store.process_conversation(event, blocked);
    assert!(matches!(notice.outcome, Err(Error::PublicKeyIsBlocked)));
}

#[test]
fn announced_groups() {
    let mut other = store();
    let mut conversation = other.delete(GROUP).unwrap();
    conversation.deleted = false;
    conversation.creator = Some(did(2));
    let copy = conversation.copy();
    let mut store = empty();
    let event = ConversationEvents::NewGroupConversation { conversation: copy };
    let mut forged = about(2, 0);
    forged.genuine = false;
    let notice = store.process_conversation(event, forged);
    assert!(matches!(
        notice.outcome,
        Err(Error::OtherWithContext(Reason::InvalidSignature))
    ));
    assert!(!store.contains(GROUP));
    let event = ConversationEvents::NewGroupConversation { conversation };
    let notice = store.process_conversation(event, about(2, 0));
    match notice.outcome {
        Ok(Outcome::Opened { request_keys, .. }) => {
            assert_eq!(request_keys, vec![did(2), did(3)]);
        }
        _ => panic!("another outcome"),
    }
    assert_eq!(store.get_keystore(GROUP).unwrap().keys[0].key, vec![7]);
}

#[test]
fn announced_leaves_and_deletions() {
    let mut store = store();
    let event = ConversationEvents::LeaveConversation {
        conversation_id: GROUP,
        recipient: did(3),
        signature: leave_signature(&vec![1, 2]),
    };
    let notice = store.process_conversation(event, about(3, 0));
    assert!(matches!(notice.outcome, Ok(Outcome::Left(_))));
    assert_eq!(store.get(GROUP).unwrap().recipients, vec![did(2), did(1)]);
    let event = ConversationEvents::DeleteConversation { conversation_id: GROUP };
    let notice = store.process_conversation(event, about(2, 0));
    assert!(matches!(
        notice.outcome,
        Err(Error::OtherWithContext(Reason::DeleteNotAllowed))
    ));
    let event = ConversationEvents::DeleteConversation { conversation_id: 30 };
    let notice = store.process_conversation(event, about(2, 0));
    assert!(matches!(
        notice.outcome,
        Err(Error::OtherWithContext(Reason::UnknownConversation { conversation_id: 30 }))
    ));
    let event = ConversationEvents::DeleteConversation { conversation_id: DIRECT };
    let notice = store.process_conversation(event, about(2, 0));
    assert!(matches!(notice.outcome, Ok(Outcome::Deleted(_))));
    assert!(!store.contains(DIRECT));
}

#[test]
fn blocked_identity_is_removed() {
    let mut store = store();
    let measures =
        store.process_identity_events(MultiPassEventKind::Blocked { did: did(2) }, true);
    assert!(measures.iter().any(|m| matches!(m, Measure::Deleted(Ok(_)))));
    assert!(measures.iter().any(|m| matches!(m, Measure::Removed { removed: Ok(_), .. })));
    assert!(!store.contains(DIRECT));
    let doc = store.get(GROUP).unwrap();
    assert!(!doc.recipients.contains(&did(2)));
    assert!(doc.restrict.contains(&did(2)));
    store.process_identity_events(MultiPassEventKind::Unblocked { did: did(2) }, false);
    assert!(!store.get(GROUP).unwrap().restrict.contains(&did(2)));
}

#[test]
fn friends_change_no_conversation() {
    let mut store = store();
    for event in [
        MultiPassEventKind::FriendRemoved { did: did(2) },
        MultiPassEventKind::FriendAdded { did: did(7) },
        MultiPassEventKind::IdentityOnline { did: did(2) },
        MultiPassEventKind::Other,
    ] {
        assert_eq!(store.process_identity_events(event, false).len(), 0);
    }
    assert_eq!(store.conversations.len(), 2);
    assert!(store.get(GROUP).unwrap().recipients.contains(&did(2)));
}

#[test]
fn keys_of_conversations() {
    let store = store();
    assert!(matches!(
        store.conversation_key(DIRECT, None),
        Ok(ConversationKey::Shared(d)) if d == did(2)
    ));
    assert!(matches!(
        store.conversation_key(GROUP, None),
        Ok(ConversationKey::Stored(key)) if key == &vec![9, 9]
    ));
    assert!(store.conversation_key(GROUP, Some(did(2))).is_err());
    assert!(matches!(
        store.pubkey_or_keystore(DIRECT),
        Ok(KeySource::Member(d)) if d == did(2)
    ));
    assert!(matches!(store.pubkey_or_keystore(GROUP), Ok(KeySource::Keystore(_))));
    assert!(store.pubkey_or_keystore(30).is_err());
}

#[test]
fn stored_payload_is_read_when_its_key_comes() {
    let mut store = store();
    assert!(matches!(
        store.process_msg_event(GROUP, did(2), &vec![1, 2, 3]),
        Ok(Reception::Waiting { ask: false })
    ));
    assert_eq!(store.process_pending_payload().len(), 0);
    let answer = ConversationResponseKind::Key { key: Ok(vec![4]) };
    assert!(matches!(
        store.take_response(GROUP, GROUP, did(2), answer),
        Ok(FollowUp::SaveKeystore)
    ));
    let arrivals = store.process_pending_payload();
    assert_eq!(arrivals.len(), 1);
    assert_eq!(arrivals[0].conversation_id, GROUP);
    assert_eq!(arrivals[0].sender, did(2));
    assert_eq!(arrivals[0].data, vec![1, 2, 3]);
    assert_eq!(store.process_pending_payload().len(), 0);
    assert!(matches!(
        store.process_msg_event(GROUP, did(2), &vec![5]),
        Ok(Reception::Stored(d)) if d == did(2)
    ));
    assert!(matches!(
        store.process_msg_event(DIRECT, did(2), &vec![5]),
        Ok(Reception::Shared(d)) if d == did(2)
    ));
}

#[test]
fn key_requests_are_answered() {
    let mut store = store();
    let answer = store
        .answer_request(GROUP, GROUP, did(2), ConversationRequestKind::Key, vec![8])
        .unwrap();
    match answer {
        Answer::Key { key, save } => {
            assert_eq!(key, vec![9, 9]);
            assert!(!save);
        }
        _ => panic!("another answer"),
    }
    assert!(store
        .answer_request(GROUP, GROUP, did(8), ConversationRequestKind::Key, vec![8])
        .is_err());
}

#[test]
fn requests_speak_of_a_conversation() {
    let mut store = store();
    let event = ConversationRequestResponse::Request {
        conversation_id: GROUP,
        kind: ConversationRequestKind::Key,
    };
    assert!(matches!(
        store.process_request_response_event(GROUP, did(2), event, vec![8]),
        Ok(Exchanged::Answer(Answer::Key { key, .. })) if key == vec![9, 9]
    ));
    let event = ConversationRequestResponse::Response {
        conversation_id: GROUP,
        kind: ConversationResponseKind::Key { key: Ok(vec![4]) },
    };
    assert!(matches!(
        store.process_request_response_event(GROUP, did(2), event, vec![8]),
        Ok(Exchanged::FollowUp(FollowUp::SaveKeystore))
    ));
    let event = MessagingEvents::Event {
        conversation_id: GROUP,
        member: did(2),
        event: MessageEvent::Typing,
        cancelled: false,
    };
    assert!(matches!(
        store.process_conversation_event(GROUP, did(2), event),
        Ok(MessageEventKind::EventReceived { .. })
    ));
    let event = ConversationRequestResponse::Request {
        conversation_id: DIRECT,
        kind: ConversationRequestKind::Key,
    };
    assert!(matches!(
        store.process_request_response_event(DIRECT, did(2), event, vec![8]),
        Err(Error::InvalidConversation)
    ));
}

#[test]
fn conversations_are_read() {
    let mut store = store();
    assert_eq!(store.list().len(), 2);
    store.send_message(GROUP, 5, 100, lines("hello")).unwrap();
    assert_eq!(store.get_messages(GROUP).unwrap().len(), 1);
    assert_eq!(store.get_message_reference(GROUP, 5).unwrap().id, 5);
    assert!(store.send_event(GROUP, MessageEvent::Typing).is_ok());
    assert!(store.cancel_event(GROUP, MessageEvent::Typing).is_ok());
    store.remove_keystore(GROUP);
    assert_eq!(
        store.get_messages(GROUP).err(),
        Some(Error::OtherWithContext(Reason::KeystoreMissing))
    );
    assert_eq!(store.get_message_reference(GROUP, 5).unwrap().id, 5);
    assert_eq!(store.get_messages(30).err(), Some(Error::InvalidConversation));
}

#[test]
fn undelivered_message_waits() {
    let mut store = store();
    store.send_message(DIRECT, 5, 100, lines("hello")).unwrap();
    let topic = "topic".to_string();
    let data = vec![1, 2];
    assert_eq!(store.message_status(DIRECT, 5), Ok(MessageStatus::Sent));
    store.publish(DIRECT, Some(5), &vec![], &topic, &data, true).unwrap();
    assert_eq!(store.message_status(DIRECT, 5), Ok(MessageStatus::NotSent));
    assert_eq!(store.queue.entries.len(), 1);
    assert!(!store.process_queue(&vec![]));
    assert!(store.process_queue(&vec![Delivery { did: did(2), index: 0 }]));
    assert_eq!(store.message_status(DIRECT, 5), Ok(MessageStatus::Sent));
    assert_eq!(store.message_status(DIRECT, 6), Err(Error::MessageNotFound));
}

#[test]
fn listening_member_needs_no_queue() {
    let mut store = store();
    store.send_message(DIRECT, 5, 100, lines("hello")).unwrap();
    store
        .publish(DIRECT, Some(5), &vec![did(2)], &"topic".to_string(), &vec![1], true)
        .unwrap();
    assert_eq!(store.message_status(DIRECT, 5), Ok(MessageStatus::Sent));
}

#[test]
fn activity_in_the_store() {
    let store = store();
    assert!(matches!(
        store.activity(DIRECT, MessageEvent::Typing, true),
        Ok(Outgoing::Event { event: MessageEvent::Typing, cancelled: true, .. })
    ));
    assert!(store.activity(30, MessageEvent::Typing, true).is_err());
}

#[test]
fn mailbox_messages_reach_the_store() {
    let mut store = store();
    let message = Message::new(5, DIRECT, did(2), 100, lines("hello"), None);
    let incoming = vec![warp::conversation::mailbox::MailboxMessage { message, verified: true }];
    assert_eq!(store.insert_messages_from_mailbox(DIRECT, incoming).unwrap().len(), 1);
    assert!(store.get(DIRECT).unwrap().contains(5));
}

#[test]
fn closed_conversation_can_be_opened_again() {
    let mut store = store();
    store.destroy_conversation(DIRECT);
    assert!(!store.is_open(DIRECT));
    store.create_conversation_task(DIRECT);
    assert!(store.is_open(DIRECT));
    store.destroy_conversation(DIRECT);
    store.destroy_conversation(GROUP);
    store.load_conversations(Some(Queue::new()));
    assert_eq!(store.open, vec![DIRECT, GROUP]);
    assert!(store.contains(DIRECT));
}

#[test]
fn direct_type_of_new_conversations() {
    let store = store();
    assert_eq!(store.get(DIRECT).unwrap().conversation_type, ConversationType::Direct);
    assert_eq!(store.get(GROUP).unwrap().conversation_type, ConversationType::Group);
}

#[test]
fn work_is_taken_up_in_order() {
    let mut timers = Timers::start(100);
    let quiet = TaskInput {
        command: false,
        attachment: false,
        ping_expired: false,
        request: false,
        event: false,
        message: false,
    };
    let busy = TaskInput { command: true, message: true, ..quiet };
    assert_eq!(timers.next_for_task(busy, 100), Some(TaskWork::Command));
    assert_eq!(timers.next_for_task(quiet, 1000), Some(TaskWork::Queue));
    timers.task_done(TaskWork::Queue, 1000);
    assert_eq!(timers.next_for_task(quiet, 1000), Some(TaskWork::PendingPayload));
    timers.task_done(TaskWork::PendingPayload, 1000);
    timers.task_done(TaskWork::Mailbox, 1000);
    timers.task_done(TaskWork::Ping, 1000);
    assert_eq!(timers.next_for_task(quiet, 1000), None);
    assert_eq!(timers.next_for_task(quiet, 1060), Some(TaskWork::Queue));
    let calm = StoreInput {
        receiver: false,
        attachment: false,
        identity: false,
        notice: false,
        topic: false,
        mailbox_result: false,
    };
    assert_eq!(timers.next_for_store(calm, 1000), None);
    let told = StoreInput { notice: true, topic: true, ..calm };
    assert_eq!(timers.next_for_store(told, 1000), Some(StoreWork::Notice));
    timers.store_done(StoreWork::Queue, 1060);
    assert_eq!(timers.next_for_store(calm, 1060), Some(StoreWork::PendingPayload));
}
