use std::sync::Arc;
use warp::data::Data;
use warp::error::{into_error, Error, LengthOf, Reason};
use warp::file_name::{attempt_name, extension_of};
use warp::http::{index, CacheSystem};
use warp::identity::{Identifier, PublicKey, Username};
use warp::ids::Did;
use warp::signal::{
    begin, decode_signal_aes, decode_signal_ecdh, finish, send_signal_aes, send_signal_ecdh,
    CipherWork, GossipSubCmd, SignalAction, Then,
};
use warp::text::{decimal_text, lines_length, same_text, trim};

#[test]
fn texts_are_trimmed() {
    for text in ["  a b \n", "", " \t\u{2003}x\u{3000}", "\u{85}\u{feff}", "ab"] {
        assert_eq!(trim(text), text.trim());
        assert_eq!(trim(trim(text)), trim(text));
    }
    assert!(same_text("ä", "ä"));
    assert!(!same_text("ä", "a"));
}

#[test]
fn all_white_space_is_trimmed() {
    for c in '\0'..=char::MAX {
        let text = format!("{c}x{c}");
        assert_eq!(trim(&text), text.trim(), "{:x}", c as u32);
    }
}

#[test]
fn lines_are_counted_in_characters() {
    let lines = vec!["  äö ".to_string(), "".to_string(), "abc".to_string()];
    assert_eq!(lines_length(&lines), 5);
}

#[test]
fn numbers_are_written() {
    for n in [0, 7, 10, 2001, u64::MAX] {
        assert_eq!(decimal_text(n), n.to_string());
    }
}

#[test]
fn names_are_tried() {
    assert_eq!(attempt_name("a.tar.gz", 3), "a.tar (3).gz");
    assert_eq!(attempt_name("plain", 12), "plain (12)");
    for path in ["a.b.c", "x/.hidden", "x/.hidden.d", "plain", "a.", "..", "/"] {
        let expected =
            std::path::Path::new(path).extension().map(|e| e.to_str().unwrap().to_string());
        assert_eq!(extension_of(path), expected, "{path}");
    }
}

#[test]
fn signals_are_asked_for() {
    let dest = Did { hi: 0, lo: 4 };
    let topic = || "t".to_string();
    assert!(matches!(
        send_signal_aes(vec![1], Some(vec![2]), topic()),
        Some(GossipSubCmd::SendAes { group_key, signal, topic })
            if group_key == vec![1] && signal == vec![2] && topic == "t"
    ));
    assert!(send_signal_aes(vec![1], None, topic()).is_none());
    assert!(matches!(
        send_signal_ecdh(dest, Some(vec![2]), topic()),
        Some(GossipSubCmd::SendEcdh { dest: d, .. }) if d == dest
    ));
    assert!(send_signal_ecdh(dest, None, topic()).is_none());
    let (work, then) = decode_signal_aes(vec![1], vec![3]);
    assert!(matches!(
        work,
        CipherWork::DecryptAes { group_key, data } if group_key == vec![1] && data == vec![3]
    ));
    assert!(matches!(finish(then, Some(vec![9])), SignalAction::Reply(Some(d)) if d == vec![9]));
    assert!(matches!(
        decode_signal_ecdh(dest, vec![3]),
        GossipSubCmd::DecodeEcdh { src, data } if src == dest && data == vec![3]
    ));
}

#[test]
fn signals_are_sent() {
    let dest = Did { hi: 0, lo: 4 };
    let (work, then) = begin(GossipSubCmd::SendAes {
        group_key: vec![1],
        signal: vec![2],
        topic: "t".to_string(),
    });
    assert!(matches!(
        work,
        CipherWork::EncryptAes { group_key, signal } if group_key == vec![1] && signal == vec![2]
    ));
    match finish(then, Some(vec![9])) {
        SignalAction::Publish { topic, data } => {
            assert_eq!(topic, "t");
            assert_eq!(data, vec![9]);
        }
        _ => panic!("another action"),
    }
    let (_, then) =
        begin(GossipSubCmd::SendEcdh { dest, signal: vec![2], topic: "t".to_string() });
    assert!(matches!(finish(then, None), SignalAction::Drop));
    let (work, then) = begin(GossipSubCmd::DecodeEcdh { src: dest, data: vec![5] });
    assert!(matches!(work, CipherWork::DecryptEcdh { src, data } if src == dest && data == vec![5]));
    assert!(matches!(then, Then::Reply));
    assert!(matches!(finish(Then::Reply, Some(vec![1])), SignalAction::Reply(Some(_))));
    assert!(matches!(finish(Then::Reply, None), SignalAction::Reply(None)));
}

#[test]
fn data_holds_its_payload() {
    let data = Data::new("module", 5u8, 42, 1000, 7);
    assert_eq!(data.payload(), &5);
    assert_eq!(data.timestamp(), 1000);
    assert_eq!(data.id, 42);
    assert_eq!(data.version, 0);
}

#[test]
fn root_is_greeted() {
    assert_eq!(index(), "Hello, World!");
    let cache = CacheSystem(Arc::new(5));
    assert_eq!(**cache.as_ref(), 5);
}

#[test]
fn identifiers_of_an_identity() {
    assert!(matches!(
        Identifier::from(PublicKey(vec![1])),
        Identifier::PublicKey(key) if key.0 == vec![1]
    ));
    assert!(matches!(
        Identifier::from("name".to_string()),
        Identifier::Username(name) if name == "name"
    ));
    assert!(Username::Full("a".to_string()).valid());
    assert!(Username::Format("a".to_string(), 1).valid());
}

#[test]
fn errors_have_texts() {
    assert_eq!(Error::ReactionDoesntExist.text(), "Reaction does not exist");
    assert_eq!(Error::IdentityDoesntExist.text(), "Identity does not exist");
    assert_eq!(into_error(Error::Unauthorized), Error::Unauthorized);
    assert_eq!(LengthOf::Reactions.text(), "reactions");
    assert_eq!(Reason::InvalidReference.text(), "invalid reference");
}
