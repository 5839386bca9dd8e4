use warp::conversation::attach::{attachment_message, AttachStep, Location};
use warp::conversation::commands::{ConversationTaskCommand, TaskReply};
use warp::conversation::document::ConversationDocument;
use warp::conversation::info::ImageSource;
use warp::conversation::keys::Keystore;
use warp::conversation::message::Attachment;
use warp::conversation::queue::{Delivery, Queue, QueueItem};
use warp::conversation::incoming::MessagingEvents;
use warp::conversation::requests::{ConversationRequestResponse, Exchanged};
use warp::conversation::task::{
    Answer, ConversationKey, ConversationRequestKind, ConversationResponseKind, ConversationTask,
    FollowUp, Reception,
};
use warp::conversation::{
    ConversationImageType, ConversationType, Limits, MessageEvent, MessageEventKind, MessageStatus,
    Outgoing, PinState, RayGunEventKind, ReactionState,
};
use warp::error::{Error, Reason};
use warp::ids::{Cid, Did, Uuid};

const GROUP: Uuid = 20;

fn did(n: u128) -> Did {
    Did { hi: 3, lo: n }
}

fn lines(text: &str) -> Vec<String> {
    vec![text.to_string()]
}

fn document(conversation_type: ConversationType) -> ConversationDocument {
    ConversationDocument {
        id: GROUP,
        name: None,
        description: None,
        creator: Some(did(1)),
        conversation_type,
        favorite: false,
        archived: false,
        deleted: false,
        icon: None,
        banner: None,
        permissions: Default::default(),
        recipients: vec![did(1), did(2)],
        excluded: vec![],
        restrict: vec![],
        messages: vec![],
    }
}

const LIMITS: Limits = Limits {
    min_message_size: 1,
    max_message_size: 100,
    max_reactions: 5,
    max_description: 50,
    max_icon_size: 1000,
    max_banner_size: 1000,
};

fn task() -> ConversationTask {
    let mut keystore = Keystore::new();
    keystore.insert(did(1), vec![9, 9]);
    let doc = document(ConversationType::Group);
    ConversationTask::new(did(1), doc, Some(keystore), vec![5], None, LIMITS).0
}

fn queue_text() -> String {
    "topic".to_string()
}

#[test]
fn new_task_keeps_its_keystore() {
    let task = task();
    assert!(matches!(
        task.conversation_key(None),
        Ok(ConversationKey::Stored(key)) if key == &vec![9, 9]
    ));
    assert!(task.conversation_key(Some(did(2))).is_err());
    let doc = document(ConversationType::Direct);
    let (direct, _) = ConversationTask::new(did(1), doc, None, vec![5], None, LIMITS);
    assert!(matches!(
        direct.conversation_key(None),
        Ok(ConversationKey::Shared(d)) if d == did(2)
    ));
}

#[test]
fn payload_is_read_when_its_key_comes() {
    let mut task = task();
    assert!(matches!(
        task.process_msg_event(did(2), &vec![1, 2]),
        Ok(Reception::Waiting { .. })
    ));
    assert_eq!(task.process_pending_payload().len(), 0);
    let answer = ConversationResponseKind::Key { key: Ok(vec![4]) };
    assert!(matches!(task.take_response(did(2), answer), Ok(FollowUp::SaveKeystore)));
    let arrivals = task.process_pending_payload();
    assert_eq!(arrivals.len(), 1);
    assert_eq!(arrivals[0].sender, did(2));
    assert_eq!(arrivals[0].data, vec![1, 2]);
    assert!(matches!(
        task.process_msg_event(did(2), &vec![1]),
        Ok(Reception::Stored(d)) if d == did(2)
    ));
}

#[test]
fn requests_are_answered() {
    let mut task = task();
    assert!(matches!(
        task.answer_request(did(2), ConversationRequestKind::Key, vec![8]),
        Ok(Answer::Key { key, .. }) if key == vec![9, 9]
    ));
    assert!(matches!(
        task.answer_request(did(2), ConversationRequestKind::Ping, vec![8]),
        Ok(Answer::Pong)
    ));
    assert!(task.answer_request(did(7), ConversationRequestKind::Key, vec![8]).is_err());
    assert!(task.check_key_request(did(7)).is_err());
    assert!(task.check_key_request(did(2)).is_ok());
}

#[test]
fn requests_and_responses_are_told_apart() {
    let mut task = task();
    let event = ConversationRequestResponse::Request {
        conversation_id: GROUP,
        kind: ConversationRequestKind::Ping,
    };
    assert!(matches!(
        task.process_request_response_event(did(2), event, vec![8]),
        Ok(Exchanged::Answer(Answer::Pong))
    ));
    let event = ConversationRequestResponse::Response {
        conversation_id: GROUP,
        kind: ConversationResponseKind::Key { key: Ok(vec![4]) },
    };
    assert!(matches!(
        task.process_request_response_event(did(2), event, vec![8]),
        Ok(Exchanged::FollowUp(FollowUp::SaveKeystore))
    ));
    assert!(matches!(
        task.conversation_key(Some(did(2))),
        Ok(ConversationKey::Stored(key)) if key == &vec![4]
    ));
}

fn typing() -> MessagingEvents {
    MessagingEvents::Event {
        conversation_id: GROUP,
        member: did(2),
        event: MessageEvent::Typing,
        cancelled: true,
    }
}

#[test]
fn activity_needs_keys() {
    let mut task = task();
    assert_eq!(
        task.process_conversation_event(did(2), typing()).err(),
        Some(Error::PublicKeyDoesntExist)
    );
    let answer = ConversationResponseKind::Key { key: Ok(vec![4]) };
    task.take_response(did(2), answer).unwrap();
    assert!(matches!(
        task.process_conversation_event(did(2), typing()),
        Ok(MessageEventKind::EventCancelled { did_key, .. }) if did_key == did(2)
    ));
    assert!(matches!(
        task.send_event(MessageEvent::Typing),
        Ok(Outgoing::Event { cancelled: false, .. })
    ));
    assert!(matches!(
        task.cancel_event(MessageEvent::Typing),
        Ok(Outgoing::Event { cancelled: true, .. })
    ));
    task.keystore = Keystore::new();
    assert_eq!(
        task.send_event(MessageEvent::Typing).err(),
        Some(Error::PublicKeyDoesntExist)
    );
}

#[test]
fn messages_are_read() {
    let mut task = task();
    task.send_message(5, 100, lines("hello")).unwrap();
    assert_eq!(task.get_messages().unwrap().len(), 1);
    assert_eq!(task.get_message_reference(5).unwrap().lines, lines("hello"));
    assert_eq!(task.get_message_reference(6).err(), Some(Error::MessageNotFound));
}

#[test]
fn document_is_replaced() {
    let mut task = task();
    let mut other = document(ConversationType::Group);
    other.name = Some("Other".to_string());
    assert!(task.replace_document(other.copy(), false).is_err());
    assert_eq!(task.document.name, None);
    task.replace_document(other, true).unwrap();
    assert_eq!(task.document.name.as_deref(), Some("Other"));
}

#[test]
fn pings_wait_for_an_answer() {
    let mut task = task();
    assert_eq!(task.ping_all(), vec![did(1), did(2)]);
    assert!(task.pending_ping_response.contains(&(3, 2)));
    task.ping_expired(did(2));
    assert!(!task.pending_ping_response.contains(&(3, 2)));
    task.ping(did(2));
    let _ = task.take_response(did(2), ConversationResponseKind::Pong);
    assert!(!task.pending_ping_response.contains(&(3, 2)));
}

#[test]
fn requested_key_is_noted() {
    let mut task = task();
    task.key_requested(did(2), false, queue_text(), vec![1]);
    assert!(task.pending_key_request_sent.contains(&(3, 2)));
    assert_eq!(task.queue.entries.len(), 1);
    assert_eq!(task.queue.entries[0].items[0].data, vec![1]);
}

#[test]
fn publication_is_queued_for_the_absent() {
    let mut task = task();
    task.send_message(5, 100, lines("hello")).unwrap();
    assert_eq!(task.message_status(5), Err(Error::Unimplemented));
    task.publish(Some(5), &vec![], &queue_text(), &vec![1], true);
    assert!(task.queue.holds(did(2), GROUP, 5));
    assert!(!task.queue.holds(did(1), GROUP, 5));
    let doc = document(ConversationType::Direct);
    let (mut direct, _) = ConversationTask::new(did(1), doc, None, vec![5], None, LIMITS);
    direct.send_message(5, 100, lines("hello")).unwrap();
    assert_eq!(direct.message_status(5), Ok(MessageStatus::Sent));
    direct.publish(Some(5), &vec![], &queue_text(), &vec![1], true);
    assert!(direct.queue.holds(did(2), GROUP, 5));
    assert_eq!(direct.message_status(5), Ok(MessageStatus::Sent));
}

#[test]
fn queue_is_swept() {
    let mut queue = Queue::new();
    queue.queue_event(did(2), QueueItem::direct(1, Some(10), did(2), queue_text(), vec![1]));
    queue.queue_event(did(2), QueueItem::direct(1, Some(11), did(2), queue_text(), vec![2]));
    queue.queue_event(did(3), QueueItem::direct(1, Some(10), did(3), queue_text(), vec![3]));
    assert_eq!(queue.entries.len(), 2);
    assert!(queue.mark_sent(Delivery { did: did(2), index: 0 }));
    assert!(!queue.mark_sent(Delivery { did: did(2), index: 0 }));
    assert!(!queue.mark_sent(Delivery { did: did(2), index: 7 }));
    queue.sweep();
    assert!(!queue.holds(did(2), 1, 10));
    assert!(queue.holds(did(2), 1, 11));
    assert!(queue.process_queue(&vec![
        Delivery { did: did(2), index: 0 },
        Delivery { did: did(3), index: 0 },
    ]));
    assert!(!queue.holds(did(2), 1, 11));
    assert!(!queue.holds(did(3), 1, 10));
}

#[test]
fn commands_are_carried_out() {
    let mut task = task();
    let reply = task.process_command(ConversationTaskCommand::SendMessage {
        id: 5,
        date: 100,
        lines: lines("hello"),
    });
    assert!(matches!(reply, TaskReply::Changed(Ok(_))));
    let reply = task.process_command(ConversationTaskCommand::GetMessagesCount);
    assert!(matches!(reply, TaskReply::Count(1)));
    let reply = task.process_command(ConversationTaskCommand::GetMessage { message_id: 5 });
    assert!(matches!(reply, TaskReply::Message(Ok(m)) if m.lines == lines("hello")));
    let reply = task.process_command(ConversationTaskCommand::GetMessages);
    assert!(matches!(reply, TaskReply::Messages(Ok(list)) if list.len() == 1));
    let reply = task.process_command(ConversationTaskCommand::GetMessageReferences);
    assert!(matches!(reply, TaskReply::Messages(Ok(list)) if list[0].id == 5));
    let reply =
        task.process_command(ConversationTaskCommand::GetMessageReference { message_id: 5 });
    assert!(matches!(reply, TaskReply::Message(Ok(m)) if m.id == 5));
    let reply = task.process_command(ConversationTaskCommand::DownloadAttachment {
        message_id: 5,
        file: "a".to_string(),
    });
    assert!(matches!(reply, TaskReply::Download(Err(Error::InvalidMessage))));
    let reply = task.process_command(ConversationTaskCommand::EventHandler);
    assert!(matches!(reply, TaskReply::Subscription));
    let reply = task.process_command(ConversationTaskCommand::GetMessage { message_id: 6 });
    assert!(matches!(reply, TaskReply::Message(Err(Error::MessageNotFound))));
    let reply = task.process_command(ConversationTaskCommand::ReplyMessage {
        id: 6,
        date: 101,
        message_id: 5,
        lines: lines("again"),
    });
    assert!(matches!(reply, TaskReply::Changed(Ok(_))));
    let reply = task.process_command(ConversationTaskCommand::EditMessage {
        message_id: 5,
        lines: lines("other"),
        now: 102,
    });
    assert!(matches!(reply, TaskReply::Changed(Ok(_))));
    let reply = task.process_command(ConversationTaskCommand::PinMessage {
        message_id: 5,
        state: PinState::Pin,
    });
    assert!(matches!(reply, TaskReply::Changed(Ok(_))));
    let reply = task.process_command(ConversationTaskCommand::ReactMessage {
        message_id: 5,
        state: ReactionState::Add,
        emoji: "x".to_string(),
    });
    assert!(matches!(reply, TaskReply::Changed(Ok(_))));
    let stored = task.document.get_message(5).unwrap();
    assert!(stored.pinned);
    assert_eq!(stored.lines, lines("other"));
    assert_eq!(stored.reactions.len(), 1);
    let reply = task.process_command(ConversationTaskCommand::DeleteMessage { message_id: 5 });
    assert!(matches!(reply, TaskReply::Changed(Ok(_))));
    assert_eq!(task.document.messages_count(), 1);
}

#[test]
fn commands_change_the_settings() {
    let mut task = task();
    task.process_command(ConversationTaskCommand::UpdateConversationName {
        name: "Name".to_string(),
    });
    task.process_command(ConversationTaskCommand::SetDescription {
        description: Some("About".to_string()),
    });
    task.process_command(ConversationTaskCommand::FavoriteConversation { favorite: true });
    let reply = task.process_command(ConversationTaskCommand::ArchivedConversation);
    assert!(matches!(
        reply,
        TaskReply::Filed(Some(RayGunEventKind::ConversationArchived { conversation_id: GROUP }))
    ));
    let reply = task.process_command(ConversationTaskCommand::AddParticipant {
        member: did(4),
        blocked: false,
    });
    assert!(matches!(reply, TaskReply::Changed(Ok(_))));
    let reply = task.process_command(ConversationTaskCommand::RemoveParticipant {
        member: did(9),
        broadcast: true,
    });
    assert!(matches!(reply, TaskReply::Changed(Err(Error::IdentityDoesntExist))));
    assert_eq!(task.document.name.as_deref(), Some("Name"));
    assert_eq!(task.document.description.as_deref(), Some("About"));
    assert!(task.document.favorite && task.document.archived);
    assert_eq!(task.document.recipients, vec![did(1), did(2), did(4)]);
    let reply = task.process_command(ConversationTaskCommand::GetIcon);
    assert!(matches!(reply, TaskReply::Image(Err(Error::Other))));
    let reply =
        task.process_command(ConversationTaskCommand::SendEvent { event: MessageEvent::Typing });
    assert!(matches!(reply, TaskReply::Activity(Ok(_))));
}

#[test]
fn only_the_creator_sets_an_image() {
    let cid = Cid { codec: 113, hi: 0, lo: 4 };
    let icon = ConversationImageType::Icon;
    let source = ImageSource::Disk { path: "a.png".to_string(), size: 5, link: cid };
    let mut task = task();
    let command = ConversationTaskCommand::UpdateIcon { source: source.clone() };
    assert!(matches!(task.process_command(command), TaskReply::PreparedImage(Ok(_))));
    assert!(task.update_conversation_image(icon, &source, cid).is_ok());
    assert_eq!(task.document.icon, Some(cid));
    assert_eq!(task.document.banner, None);
    task.own = did(2);
    let other = Cid { codec: 113, hi: 0, lo: 5 };
    assert_eq!(
        task.update_conversation_image(icon, &source, other).err(),
        Some(Error::InvalidConversation)
    );
    assert_eq!(task.document.icon, Some(cid));
    let nothing = ImageSource::Constellation {
        size: 5,
        file_type: "image/png".to_string(),
        reference: None,
    };
    task.own = did(1);
    assert_eq!(
        task.update_conversation_image(icon, &nothing, other).err(),
        Some(Error::OtherWithContext(Reason::InvalidReference))
    );
}

#[test]
fn file_of_a_message_is_downloaded() {
    let mut task = task();
    let file = Attachment { name: "a.txt".to_string(), size: 3, reference: None };
    let message = attachment_message(5, GROUP, did(1), 100, vec![file], vec![], None).unwrap();
    task.store_direct_for_attachment(message).unwrap();
    let reply = task.process_command(ConversationTaskCommand::DownloadAttachmentStream {
        message_id: 5,
        file: "a.txt".to_string(),
    });
    assert!(matches!(reply, TaskReply::Download(Ok(a)) if a.name == "a.txt" && a.size == 3));
    assert_eq!(task.download(5, "b.txt").err(), Some(Error::FileNotFound));
    assert_eq!(task.download(6, "a.txt").err(), Some(Error::MessageNotFound));
}

#[test]
fn command_attaches_files() {
    let mut task = task();
    let reply = task.process_command(ConversationTaskCommand::AttachMessage {
        id: 9,
        message_id: Some(5),
        locations: vec![Location::Stream { name: "a.txt".to_string() }],
        lines: vec![],
        items: vec!["a.txt".to_string()],
    });
    match reply {
        TaskReply::Attachments(Ok(attaching)) => {
            assert_eq!((attaching.id, attaching.replied), (9, Some(5)));
            assert_eq!((attaching.conversation_id, attaching.own), (GROUP, did(1)));
            assert!(matches!(
                &attaching.steps[0],
                AttachStep::Upload { name, .. } if name == "a (1).txt"
            ));
        }
        _ => panic!("another reply"),
    }
    let reply = task.process_command(ConversationTaskCommand::AttachMessage {
        id: 9,
        message_id: Some(5),
        locations: vec![],
        lines: vec![],
        items: vec![],
    });
    assert!(matches!(reply, TaskReply::Attachments(Err(Error::NoAttachments))));
    let many = (0..33).map(|i| Location::Stream { name: format!("{i}") }).collect();
    let reply = task.process_command(ConversationTaskCommand::AttachMessage {
        id: 9,
        message_id: Some(5),
        locations: many,
        lines: vec![],
        items: vec![],
    });
    assert!(matches!(
        reply,
        TaskReply::Attachments(Err(Error::InvalidLength { current: 33, .. }))
    ));
}
