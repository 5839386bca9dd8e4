//! Signals that are sent and read over the topics of the network.
use vstd::prelude::*;
use crate::ids::Did;

verus! {

/// What the sender of signals is asked for.
pub enum GossipSubCmd {
    SendAes { group_key: Vec<u8>, signal: Vec<u8>, topic: String },
    SendEcdh { dest: Did, signal: Vec<u8>, topic: String },
    DecodeEcdh { src: Did, data: Vec<u8> },
}

/// Asks for a signal to a group to be sent, where it could be written as bytes.
pub fn send_signal_aes(group_key: Vec<u8>, signal: Option<Vec<u8>>, topic: String) -> (r: Option<
    GossipSubCmd,
>)
    ensures
        r == (match signal {
            Some(signal) => Some(GossipSubCmd::SendAes { group_key, signal, topic }),
            None => None,
        }),
{
    match signal {
        Some(signal) => Some(GossipSubCmd::SendAes { group_key, signal, topic }),
        None => None,
    }
}

/// Asks for a signal to an identity to be sent, where it could be written as bytes.
pub fn send_signal_ecdh(dest: Did, signal: Option<Vec<u8>>, topic: String) -> (r: Option<
    GossipSubCmd,
>)
    ensures
        r == (match signal {
            Some(signal) => Some(GossipSubCmd::SendEcdh { dest, signal, topic }),
            None => None,
        }),
{
    match signal {
        Some(signal) => Some(GossipSubCmd::SendEcdh { dest, signal, topic }),
        None => None,
    }
}

/// The cipher work for a signal to a group. It takes the key of the group alone, so that nobody has
/// to be asked for it.
pub fn decode_signal_aes(group_key: Vec<u8>, message: Vec<u8>) -> (r: (CipherWork, Then))
    ensures
        r == (CipherWork::DecryptAes { group_key, data: message }, Then::Reply),
{
    (CipherWork::DecryptAes { group_key, data: message }, Then::Reply)
}

/// Asks for a signal of an identity to be decrypted.
pub fn decode_signal_ecdh(src: Did, message: Vec<u8>) -> (r: GossipSubCmd)
    ensures
        r == (GossipSubCmd::DecodeEcdh { src, data: message }),
{
    GossipSubCmd::DecodeEcdh { src, data: message }
}

/// The cipher work that comes first.
pub enum CipherWork {
    /// Encrypt with the key of a group.
    EncryptAes { group_key: Vec<u8>, signal: Vec<u8> },
    /// Encrypt with the key that is shared with an identity.
    EncryptEcdh { dest: Did, signal: Vec<u8> },
    /// Decrypt with the key of a group.
    DecryptAes { group_key: Vec<u8>, data: Vec<u8> },
    /// Decrypt with the key that is shared with an identity.
    DecryptEcdh { src: Did, data: Vec<u8> },
}

/// What follows the cipher work.
pub enum Then {
    /// What was encrypted is published to a topic.
    Publish { topic: String },
    /// What was decrypted, or the failure, is handed back.
    Reply,
}

/// What is done in the end.
pub enum SignalAction {
    Publish { topic: String, data: Vec<u8> },
    /// A signal that could not be encrypted is dropped.
    Drop,
    Reply(Option<Vec<u8>>),
}

/// Splits a command into the cipher work and what follows it.
pub fn begin(command: GossipSubCmd) -> (r: (CipherWork, Then))
    ensures
        r == (match command {
            GossipSubCmd::SendAes { group_key, signal, topic } => (
                CipherWork::EncryptAes { group_key, signal },
                Then::Publish { topic },
            ),
            GossipSubCmd::SendEcdh { dest, signal, topic } => (
                CipherWork::EncryptEcdh { dest, signal },
                Then::Publish { topic },
            ),
            GossipSubCmd::DecodeEcdh { src, data } => (
                CipherWork::DecryptEcdh { src, data },
                Then::Reply,
            ),
        }),
{
    match command {
        GossipSubCmd::SendAes { group_key, signal, topic } => (
            CipherWork::EncryptAes { group_key, signal },
            Then::Publish { topic },
        ),
        GossipSubCmd::SendEcdh { dest, signal, topic } => (
            CipherWork::EncryptEcdh { dest, signal },
            Then::Publish { topic },
        ),
        GossipSubCmd::DecodeEcdh { src, data } => (
            CipherWork::DecryptEcdh { src, data },
            Then::Reply,
        ),
    }
}

/// What is done with the outcome of the cipher work, which is nothing where it failed.
pub fn finish(then: Then, outcome: Option<Vec<u8>>) -> (r: SignalAction)
    ensures
        r == (match then {
            Then::Publish { topic } => match outcome {
                Some(data) => SignalAction::Publish { topic, data },
                None => SignalAction::Drop,
            },
            Then::Reply => SignalAction::Reply(outcome),
        }),
{
    match then {
        Then::Publish { topic } => match outcome {
            Some(data) => SignalAction::Publish { topic, data },
            None => SignalAction::Drop,
        },
        Then::Reply => SignalAction::Reply(outcome),
    }
}

} // verus!
