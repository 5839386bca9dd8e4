use warp::error::{Error, Reason};
use warp::ids::{Cid, Did};
use warp::shuttle::config::{
    choose_addresses, choose_path, decode_kp, encode_kp, keypair_source, named_store,
    split_commas, KeypairSource, StoreType,
};
use warp::shuttle::mailbox::MessageStorage;
use warp::shuttle::protocol::{
    Lookup, LookupResponse, Mailbox, MailboxResponse, Register, RegisterResponse, Request,
    Response, Synchronized, SynchronizedResponse,
};
use warp::shuttle::server::{Behaviour, Forward, Readiness, Settlement};

fn did(n: u128) -> Did {
    Did { hi: 0, lo: n }
}

fn cid(n: u128) -> Cid {
    Cid { codec: 113, hi: 0, lo: n }
}

#[test]
fn message_waits_until_delivered() {
    let registered = vec![did(1), did(2)];
    let mut storage = MessageStorage::new();
    storage
        .insert_or_update(&registered, did(1), &vec![did(2), did(3)], 10, 5, cid(7), true)
        .unwrap();
    let waiting = storage.get_unsent_messages(&registered, did(2), 10).unwrap();
    assert_eq!(waiting.len(), 1);
    assert_eq!(waiting.get(&5), Some(&cid(7)));
    storage
        .insert_or_update(&registered, did(1), &vec![did(2)], 10, 5, cid(8), true)
        .unwrap();
    let waiting = storage.get_unsent_messages(&registered, did(2), 10).unwrap();
    assert_eq!(waiting.get(&5), Some(&cid(8)));
    storage.message_delivered(&registered, did(2), 10, 5).unwrap();
    assert_eq!(storage.get_unsent_messages(&registered, did(2), 10).unwrap().len(), 0);
    assert_eq!(
        storage.message_delivered(&registered, did(2), 10, 5),
        Err(Error::MessageNotFound)
    );
}

#[test]
fn mailboxes_are_for_the_registered() {
    let registered = vec![did(1)];
    let mut storage = MessageStorage::new();
    assert_eq!(
        storage.insert_or_update(&registered, did(9), &vec![], 10, 5, cid(7), true),
        Err(Error::IdentityDoesntExist)
    );
    assert_eq!(
        storage.insert_or_update(&registered, did(1), &vec![], 10, 5, cid(7), false),
        Err(Error::OtherWithContext(Reason::MessageUnavailable))
    );
    assert_eq!(
        storage.message_delivered(&registered, did(1), 10, 5),
        Err(Error::InvalidConversation)
    );
    assert_eq!(
        storage.get_unsent_messages(&registered, did(9), 10).err(),
        Some(Error::IdentityDoesntExist)
    );
    assert_eq!(
        storage.remove_mailbox(&registered, did(9), 10),
        Err(Error::IdentityDoesntExist)
    );
}

#[test]
fn store_types_are_named() {
    assert_eq!(named_store("flatfs"), Some(StoreType::FlatFS));
    assert_eq!(named_store("FlatFS"), None);
    assert_eq!(StoreType::from_str("FlatFS"), Some(StoreType::FlatFS));
    assert_eq!(StoreType::from_str("SLED"), Some(StoreType::Sled));
    assert_eq!(StoreType::from_str("disk"), None);
}

#[test]
fn keypairs_are_written_as_text() {
    assert_eq!(encode_kp(&vec![0, 1, 2, 255]), "AAEC/w==");
    assert_eq!(decode_kp("AAEC/w=="), Some(vec![0, 1, 2, 255]));
    assert_eq!(decode_kp("AAEC/w"), None);
    assert_eq!(decode_kp("!"), None);
    assert_eq!(keypair_source(true, true), KeypairSource::Read);
    assert_eq!(keypair_source(true, false), KeypairSource::GenerateAndWrite);
    assert_eq!(keypair_source(false, false), KeypairSource::Generate);
}

#[test]
fn addresses_are_chosen() {
    assert_eq!(split_commas("a,b,,c"), vec!["a", "b", "", "c"]);
    assert_eq!(split_commas(""), vec![""]);
    let cli = vec!["x".to_string(), "y".to_string(), "x".to_string()];
    assert_eq!(choose_addresses(None, cli.clone()), cli);
    let env = vec!["y".to_string(), "z".to_string()];
    assert_eq!(choose_addresses(Some(env.clone()), vec![]), env);
    let mut merged = choose_addresses(Some(env), cli);
    merged.sort();
    assert_eq!(merged, vec!["x", "y", "z"]);
    assert_eq!(
        choose_addresses(None, vec![]),
        vec!["/ip4/0.0.0.0/tcp/0", "/ip4/0.0.0.0/udp/0/quic-v1"]
    );
}

#[test]
fn paths_are_chosen() {
    let env = Some("env".to_string());
    let cli = Some("cli".to_string());
    assert_eq!(choose_path(None, None, false), None);
    assert_eq!(choose_path(env.clone(), None, false), env);
    assert_eq!(choose_path(None, cli.clone(), false), cli);
    assert_eq!(choose_path(env.clone(), cli.clone(), false), None);
    assert_eq!(choose_path(env.clone(), cli, true), env);
}

#[test]
fn requests_are_wrapped() {
    assert!(matches!(Request::from(Register::IsRegistered), Request::Register(_)));
    assert!(matches!(Request::from(Mailbox::FetchAll), Request::Mailbox(_)));
    assert!(matches!(Request::from(Synchronized::Fetch), Request::Synchronized(_)));
    assert!(matches!(
        Request::from(Lookup::PublicKey { did: did(1) }),
        Request::Lookup(Lookup::PublicKey { .. })
    ));
    assert!(matches!(
        Response::from(RegisterResponse::Registered),
        Response::RegisterResponse(_)
    ));
    assert!(matches!(
        Response::from(SynchronizedResponse::RecordStored),
        Response::SynchronizedResponse(_)
    ));
    assert!(matches!(Response::from(MailboxResponse::Sent), Response::MailboxResponse(_)));
    assert!(matches!(
        Response::from(LookupResponse::Found { identity: vec![] }),
        Response::LookupResponse(_)
    ));
}

#[test]
fn requests_are_forwarded() {
    let mut server = Behaviour::new();
    assert!(matches!(server.process_request(1, false), Some(Response::Error(text)) if text == "Request is invalid or corrupted"));
    assert!(server.process_request(2, true).is_none());
    assert!(matches!(server.forward(2, Readiness::Pending), Forward::Keep));
    assert!(matches!(server.forward(2, Readiness::Ready), Forward::Send));
    assert!(!server.settle(2, Settlement::Pending));
    server.settle(2, Settlement::Answered);
    assert!(server.waiting_on_request.is_empty());
    assert!(server.process_request(3, true).is_none());
    assert!(matches!(server.forward(3, Readiness::Closed), Forward::Drop));
    server.inbound_failure(3);
    assert!(server.queue_event.is_empty());
    assert!(server.waiting_on_request.is_empty());
}
