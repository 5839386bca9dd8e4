//! Requests to the node and its responses.
use vstd::prelude::*;
use crate::ids::{Cid, Did};

verus! {

/// The short form of an identity.
pub type ShortId = u64;

/// A signed request from one identity to another, as it travels.
#[derive(Clone, Debug)]
pub struct RequestResponsePayload {
    pub payload: Vec<u8>,
}

/// The signed document of an identity, as it travels.
#[derive(Clone, Debug)]
pub struct IdentityDocument {
    pub document: Vec<u8>,
}

#[derive(Clone, Debug)]
pub enum Request {
    Register(Register),
    Mailbox(Mailbox),
    Synchronized(Synchronized),
    Lookup(Lookup),
}

#[derive(Clone, Debug)]
pub enum Response {
    RegisterResponse(RegisterResponse),
    SynchronizedResponse(SynchronizedResponse),
    MailboxResponse(MailboxResponse),
    LookupResponse(LookupResponse),
    Ack,
    InvalidPayload,
    Error(String),
}

#[derive(Clone, Debug)]
pub enum Mailbox {
    FetchAll,
    FetchFrom { did: Did },
    Send { did: Did, request: RequestResponsePayload },
}

#[derive(Clone, Debug)]
pub enum MailboxResponse {
    Receive { list: Vec<RequestResponsePayload>, remaining: usize },
    Removed,
    Completed,
    Sent,
    Error(MailboxError),
}

#[derive(Clone, Debug)]
pub enum MailboxError {
    IdentityNotRegistered,
    UserNotRegistered,
    NoRequests,
    Blocked,
    InvalidRequest,
    Other(String),
}

#[derive(Clone, Debug)]
pub enum Lookup {
    Username { username: String, count: u8 },
    ShortId { short_id: ShortId },
    PublicKey { did: Did },
    PublicKeys { dids: Vec<Did> },
}

#[derive(Clone, Copy, PartialEq, Eq, Structural, Debug)]
pub enum LookupError {
    DoesntExist,
    RateExceeded,
}

#[derive(Clone, Debug)]
pub enum LookupResponse {
    Found { identity: Vec<IdentityDocument> },
    Error(LookupError),
}

#[derive(Clone, Copy, PartialEq, Eq, Structural, Debug)]
pub enum Register {
    IsRegistered,
    RegisterIdentity { root_cid: Cid },
}

#[derive(Clone, Copy, PartialEq, Eq, Structural, Debug)]
pub enum RegisterResponse {
    Registered,
    Error(RegisterError),
}

#[derive(Clone, Copy, PartialEq, Eq, Structural, Debug)]
pub enum RegisterError {
    InternalError,
    IdentityExist,
    IdentityVerificationFailed,
    NotRegistered,
    Unspecified,
}

#[derive(Clone, Copy, PartialEq, Eq, Structural, Debug)]
pub enum Synchronized {
    Store { package: Cid },
    Fetch,
}

#[derive(Clone, Debug)]
pub enum SynchronizedResponse {
    RecordStored,
    IdentityUpdated,
    Package(Cid),
    Error(SynchronizedError),
}

#[derive(Clone, Debug)]
pub enum SynchronizedError {
    DoesntExist,
    Forbidden,
    NotRegistered,
    Invalid,
    InvalidPayload { msg: String },
    InvalodRecord { msg: String },
}

impl From<Register> for Request {
    fn from(value: Register) -> (r: Request) {
        Request::Register(value)
    }
}

impl vstd::std_specs::convert::FromSpecImpl<Register> for Request {
    open spec fn obeys_from_spec() -> bool {
        true
    }

    open spec fn from_spec(value: Register) -> Request {
        Request::Register(value)
    }
}

impl From<Mailbox> for Request {
    fn from(value: Mailbox) -> (r: Request) {
        Request::Mailbox(value)
    }
}

impl vstd::std_specs::convert::FromSpecImpl<Mailbox> for Request {
    open spec fn obeys_from_spec() -> bool {
        true
    }

    open spec fn from_spec(value: Mailbox) -> Request {
        Request::Mailbox(value)
    }
}

impl From<Synchronized> for Request {
    fn from(value: Synchronized) -> (r: Request) {
        Request::Synchronized(value)
    }
}

impl vstd::std_specs::convert::FromSpecImpl<Synchronized> for Request {
    open spec fn obeys_from_spec() -> bool {
        true
    }

    open spec fn from_spec(value: Synchronized) -> Request {
        Request::Synchronized(value)
    }
}

impl From<Lookup> for Request {
    fn from(value: Lookup) -> (r: Request) {
        Request::Lookup(value)
    }
}

impl vstd::std_specs::convert::FromSpecImpl<Lookup> for Request {
    open spec fn obeys_from_spec() -> bool {
        true
    }

    open spec fn from_spec(value: Lookup) -> Request {
        Request::Lookup(value)
    }
}

impl From<RegisterResponse> for Response {
    fn from(value: RegisterResponse) -> (r: Response) {
        Response::RegisterResponse(value)
    }
}

impl vstd::std_specs::convert::FromSpecImpl<RegisterResponse> for Response {
    open spec fn obeys_from_spec() -> bool {
        true
    }

    open spec fn from_spec(value: RegisterResponse) -> Response {
        Response::RegisterResponse(value)
    }
}

impl From<SynchronizedResponse> for Response {
    fn from(value: SynchronizedResponse) -> (r: Response) {
        Response::SynchronizedResponse(value)
    }
}

impl vstd::std_specs::convert::FromSpecImpl<SynchronizedResponse> for Response {
    open spec fn obeys_from_spec() -> bool {
        true
    }

    open spec fn from_spec(value: SynchronizedResponse) -> Response {
        Response::SynchronizedResponse(value)
    }
}

impl From<MailboxResponse> for Response {
    fn from(value: MailboxResponse) -> (r: Response) {
        Response::MailboxResponse(value)
    }
}

impl vstd::std_specs::convert::FromSpecImpl<MailboxResponse> for Response {
    open spec fn obeys_from_spec() -> bool {
        true
    }

    open spec fn from_spec(value: MailboxResponse) -> Response {
        Response::MailboxResponse(value)
    }
}

impl From<LookupResponse> for Response {
    fn from(value: LookupResponse) -> (r: Response) {
        Response::LookupResponse(value)
    }
}

impl vstd::std_specs::convert::FromSpecImpl<LookupResponse> for Response {
    open spec fn obeys_from_spec() -> bool {
        true
    }

    open spec fn from_spec(value: LookupResponse) -> Response {
        Response::LookupResponse(value)
    }
}

} // verus!
