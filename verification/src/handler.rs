//! The callback surface the embedder implements: one method per protocol
//! decision, each returning a typed verdict that the state machine maps to
//! a response, plus the byte sink that receives accepted message bodies.

use vstd::prelude::*;

verus! {

use crate::ip::IpAddress;
use crate::response::{
    Response, ResponseModel, ok_model, bad_hello_model, blocked_ip_model, no_service_model,
    internal_error_model, out_of_space_model, authentication_required_model, no_storage_model,
    no_mailbox_model, bad_mailbox_model, authentication_ok_model, temporary_auth_failure_model,
    invalid_credentials_model,
};

/// A byte-append capability with an error channel: the destination of a
/// message body while the session is in the data phase.
pub trait Sink: Sized {
    /// The bytes this sink has accepted so far
    open spec fn contents(&self) -> Seq<u8> {
        Seq::empty()
    }

    /// The sink's own well-formedness; the session receives every sink
    /// well-formed and keeps it that way
    open spec fn inv(&self) -> bool {
        true
    }

    /// Append one body line, returning false when the sink has failed.
    /// A successful append extends the contents by exactly the given bytes;
    /// a failed one leaves them unchanged.
    fn append(&mut self, line: &[u8]) -> (ok: bool)
        requires
            old(self).inv(),
        ensures
            final(self).inv(),
            ok ==> final(self).contents() == old(self).contents() + line@,
            !ok ==> final(self).contents() == old(self).contents(),
    ;

    /// Called once when the whole body arrived and the terminating dot was
    /// accepted: the message may now be delivered. A sink that is dropped
    /// without this call holds a partial message, which is never delivered.
    fn commit(self) {
    }
}

/// A sink that stores the message in memory
pub struct VecSink {
    /// The bytes received so far
    pub data: Vec<u8>,
}

impl VecSink {
    /// An empty sink
    pub fn new() -> (s: VecSink)
        ensures
            s.inv(),
            s.contents() == Seq::<u8>::empty(),
    {
        VecSink { data: Vec::new() }
    }
}

impl Sink for VecSink {
    open spec fn contents(&self) -> Seq<u8> {
        self.data@
    }

    open spec fn inv(&self) -> bool {
        true
    }

    fn append(&mut self, line: &[u8]) -> (ok: bool) {
        self.data.extend_from_slice(line);
        true
    }
}

/// The verdict of the handler on HELO/EHLO
#[derive(PartialEq, Eq, Structural, Clone, Copy, Debug)]
pub enum HeloResult {
    /// The client may continue
    Accepted,
    /// The domain was rejected
    BadHelo,
    /// The client address is blocklisted
    BlockedIp,
}

/// The verdict of the handler on MAIL FROM
#[derive(PartialEq, Eq, Structural, Clone, Copy, Debug)]
pub enum MailResult {
    /// The sender is accepted
    Accepted,
    /// Service refused; the session closes
    NoService,
    /// A transient server-side error
    InternalError,
    /// The message would exceed the storage allocation
    OutOfSpace,
    /// The client must authenticate first
    AuthRequired,
    /// The server has no storage for this message
    NoStorage,
}

/// The verdict of the handler on RCPT TO
#[derive(PartialEq, Eq, Structural, Clone, Copy, Debug)]
pub enum RcptResult {
    /// The recipient is accepted
    Accepted,
    /// The mailbox does not exist
    NoMailbox,
    /// The server has no storage for this message
    NoStorage,
    /// The mailbox name is not allowed
    BadMailbox,
    /// A transient server-side error
    InternalError,
    /// The message would exceed the storage allocation
    OutOfSpace,
    /// Service refused; the session closes
    NoService,
}

/// The verdict of the handler on DATA: on success it carries the sink that
/// will receive the message body
pub enum DataResult<S: Sink> {
    /// The message is accepted; body lines go to this sink
    Accepted(S),
    /// A transient server-side error
    InternalError,
    /// The transaction is refused
    TransactionFailed,
    /// Service refused; the session closes
    NoService,
}

/// The verdict of the handler on an authentication attempt
#[derive(PartialEq, Eq, Structural, Clone, Copy, Debug)]
pub enum AuthResult {
    /// The credentials are accepted
    Accepted,
    /// Authentication failed transiently; the client may retry
    TemporaryFailure,
    /// The credentials were rejected
    InvalidCredentials,
}

/// The response sent for each HELO verdict
pub open spec fn helo_response_model(r: HeloResult) -> ResponseModel {
    match r {
        HeloResult::Accepted => ok_model(),
        HeloResult::BadHelo => bad_hello_model(),
        HeloResult::BlockedIp => blocked_ip_model(),
    }
}

/// The response sent for each MAIL verdict
pub open spec fn mail_response_model(r: MailResult) -> ResponseModel {
    match r {
        MailResult::Accepted => ok_model(),
        MailResult::NoService => no_service_model(),
        MailResult::InternalError => internal_error_model(),
        MailResult::OutOfSpace => out_of_space_model(),
        MailResult::AuthRequired => authentication_required_model(),
        MailResult::NoStorage => no_storage_model(),
    }
}

/// The response sent for each RCPT verdict
pub open spec fn rcpt_response_model(r: RcptResult) -> ResponseModel {
    match r {
        RcptResult::Accepted => ok_model(),
        RcptResult::NoMailbox => no_mailbox_model(),
        RcptResult::NoStorage => no_storage_model(),
        RcptResult::BadMailbox => bad_mailbox_model(),
        RcptResult::InternalError => internal_error_model(),
        RcptResult::OutOfSpace => out_of_space_model(),
        RcptResult::NoService => no_service_model(),
    }
}

/// The response sent for each authentication verdict
pub open spec fn auth_response_model(r: AuthResult) -> ResponseModel {
    match r {
        AuthResult::Accepted => authentication_ok_model(),
        AuthResult::TemporaryFailure => temporary_auth_failure_model(),
        AuthResult::InvalidCredentials => invalid_credentials_model(),
    }
}

/// Build the response for a HELO verdict
pub fn helo_response(r: &HeloResult) -> (resp: Response)
    ensures
        resp@ == helo_response_model(*r),
{
    match r {
        HeloResult::Accepted => Response::ok(),
        HeloResult::BadHelo => Response::bad_hello(),
        HeloResult::BlockedIp => Response::blocked_ip(),
    }
}

/// Build the response for a MAIL verdict
pub fn mail_response(r: &MailResult) -> (resp: Response)
    ensures
        resp@ == mail_response_model(*r),
{
    match r {
        MailResult::Accepted => Response::ok(),
        MailResult::NoService => Response::no_service(),
        MailResult::InternalError => Response::internal_error(),
        MailResult::OutOfSpace => Response::out_of_space(),
        MailResult::AuthRequired => Response::authentication_required(),
        MailResult::NoStorage => Response::no_storage(),
    }
}

/// Build the response for a RCPT verdict
pub fn rcpt_response(r: &RcptResult) -> (resp: Response)
    ensures
        resp@ == rcpt_response_model(*r),
{
    match r {
        RcptResult::Accepted => Response::ok(),
        RcptResult::NoMailbox => Response::no_mailbox(),
        RcptResult::NoStorage => Response::no_storage(),
        RcptResult::BadMailbox => Response::bad_mailbox(),
        RcptResult::InternalError => Response::internal_error(),
        RcptResult::OutOfSpace => Response::out_of_space(),
        RcptResult::NoService => Response::no_service(),
    }
}

/// Build the response for an authentication verdict
pub fn auth_response(r: &AuthResult) -> (resp: Response)
    ensures
        resp@ == auth_response_model(*r),
{
    match r {
        AuthResult::Accepted => Response::authentication_ok(),
        AuthResult::TemporaryFailure => Response::temporary_auth_failure(),
        AuthResult::InvalidCredentials => Response::invalid_credentials(),
    }
}

/// The callback surface the embedder implements. Every connection uses its
/// own handler instance. The callbacks default to accepting everything,
/// except authentication, which defaults to rejection; `data` has no
/// default, since only the embedder can supply the sink.
pub trait Handler {
    /// The sink that receives message bodies this handler accepts
    type MessageSink: Sink;

    /// Called on HELO or EHLO with the client address and announced domain
    fn helo(&mut self, ip: &IpAddress, domain: &[u8]) -> HeloResult {
        HeloResult::Accepted
    }

    /// Called on MAIL FROM with the client address, the HELO domain and the
    /// reverse path (empty for bounce messages)
    fn mail(&mut self, ip: &IpAddress, domain: &[u8], reverse_path: &[u8]) -> MailResult {
        MailResult::Accepted
    }

    /// Called on each RCPT TO with the forward path
    fn rcpt(&mut self, forward_path: &[u8]) -> RcptResult {
        RcptResult::Accepted
    }

    /// Called on DATA; on success the returned sink receives the body,
    /// and arrives well-formed
    fn data(
        &mut self,
        domain: &[u8],
        reverse_path: &[u8],
        is8bit: bool,
        forward_paths: &Vec<Vec<u8>>,
    ) -> (r: DataResult<Self::MessageSink>)
        ensures
            r matches DataResult::Accepted(s) ==> s.inv(),
    ;

    /// Called on AUTH PLAIN with the three decoded credential fields
    fn auth_plain(
        &mut self,
        authorization_id: &[u8],
        authentication_id: &[u8],
        password: &[u8],
    ) -> AuthResult {
        AuthResult::InvalidCredentials
    }

    /// Called on AUTH LOGIN with the decoded username and password
    fn auth_login(&mut self, username: &[u8], password: &[u8]) -> AuthResult {
        AuthResult::InvalidCredentials
    }
}

} // verus!
