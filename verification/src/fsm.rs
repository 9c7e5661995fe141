//! The SMTP state machine: it owns the protocol phase, consumes one typed
//! command at a time, invokes the embedder's handler callbacks, and yields
//! the response plus the next phase.
//!
//! The whole transition relation is the spec function [`step`]: given the
//! machine's model, a command and the handler's verdict, it gives the next
//! model and the response. [`StateMachine::command`] promises to follow
//! `step` for some verdict of the right kind, and to follow it exactly
//! wherever no handler callback is consulted.

use vstd::prelude::*;

verus! {

use crate::auth::AuthMechanism;
use crate::cmd::{Cmd, CmdModel};
use crate::handler::{
    AuthResult, DataResult, Handler, HeloResult, MailResult, RcptResult, Sink,
    auth_response, auth_response_model, helo_response, helo_response_model, mail_response,
    mail_response_model, rcpt_response, rcpt_response_model,
};
use crate::ip::IpAddress;
use crate::parser::{parse, parse_auth_response, decode_sasl_plain, spec_parse, spec_auth_response,
    LineParse};
use vstd::slice::slice_subrange;
use crate::response::{
    Action, Response, ResponseModel, auth_challenge_model, authentication_ok_model,
    bad_hello_model, bad_sequence_model, empty_model, goodbye_model, internal_error_model,
    no_service_model, ok_model, start_data_model, start_tls_model, syntax_error_model,
    transaction_failed_model, verify_model,
};

//------ Postures ---------------------------------------------------------------

/// Whether the connection runs over TLS, and whether an upgrade is offered
#[derive(PartialEq, Eq, Structural, Clone, Copy, Debug)]
pub enum TlsState {
    /// No TLS support is configured
    Unavailable,
    /// TLS is configured but the connection is still plaintext
    Inactive,
    /// The connection runs over TLS
    Active,
}

/// Whether the client must authenticate, and whether it has
#[derive(PartialEq, Eq, Structural, Clone, Copy, Debug)]
pub enum AuthState {
    /// No authentication is configured; nothing is gated
    Unavailable,
    /// Authentication is configured and still outstanding
    RequiresAuth,
    /// The client has authenticated
    Authenticated,
}

//------ Phases -------------------------------------------------------------------

/// The protocol phase, with the transaction data accumulated so far
#[derive(Debug)]
pub enum Phase {
    /// Connected, no HELO yet
    Idle,
    /// HELO/EHLO accepted
    Hello { domain: Vec<u8> },
    /// HELO/EHLO accepted, authentication still required
    HelloAuth { domain: Vec<u8> },
    /// Waiting for the client's authentication continuation line
    Auth { domain: Vec<u8>, mechanism: AuthMechanism },
    /// MAIL FROM accepted
    Mail { domain: Vec<u8>, reverse_path: Vec<u8>, is8bit: bool },
    /// At least one RCPT TO accepted
    Rcpt { domain: Vec<u8>, reverse_path: Vec<u8>, is8bit: bool, forward_path: Vec<Vec<u8>> },
    /// Receiving the message body
    Data { domain: Vec<u8> },
    /// The session is over; no further output is produced
    Closed,
}

/// The model of a protocol phase
pub enum PhaseModel {
    Idle,
    Hello { domain: Seq<u8> },
    HelloAuth { domain: Seq<u8> },
    Auth { domain: Seq<u8> },
    Mail { domain: Seq<u8>, reverse_path: Seq<u8>, is8bit: bool },
    Rcpt { domain: Seq<u8>, reverse_path: Seq<u8>, is8bit: bool, forward_path: Seq<Seq<u8>> },
    Data { domain: Seq<u8> },
    Closed,
}

impl View for Phase {
    type V = PhaseModel;

    open spec fn view(&self) -> PhaseModel {
        match self {
            Phase::Idle => PhaseModel::Idle,
            Phase::Hello { domain } => PhaseModel::Hello { domain: domain@ },
            Phase::HelloAuth { domain } => PhaseModel::HelloAuth { domain: domain@ },
            Phase::Auth { domain, .. } => PhaseModel::Auth { domain: domain@ },
            Phase::Mail { domain, reverse_path, is8bit } => PhaseModel::Mail {
                domain: domain@,
                reverse_path: reverse_path@,
                is8bit: *is8bit,
            },
            Phase::Rcpt { domain, reverse_path, is8bit, forward_path } => PhaseModel::Rcpt {
                domain: domain@,
                reverse_path: reverse_path@,
                is8bit: *is8bit,
                forward_path: forward_path.deep_view(),
            },
            Phase::Data { domain } => PhaseModel::Data { domain: domain@ },
            Phase::Closed => PhaseModel::Closed,
        }
    }
}

/// A coarse name for the current phase
#[derive(PartialEq, Eq, Structural, Clone, Copy, Debug)]
pub enum SmtpState {
    Invalid,
    Idle,
    Hello,
    HelloAuth,
    Auth,
    Mail,
    Rcpt,
    Data,
}

/// The coarse name of a phase model
pub open spec fn state_tag(p: PhaseModel) -> SmtpState {
    match p {
        PhaseModel::Idle => SmtpState::Idle,
        PhaseModel::Hello { .. } => SmtpState::Hello,
        PhaseModel::HelloAuth { .. } => SmtpState::HelloAuth,
        PhaseModel::Auth { .. } => SmtpState::Auth,
        PhaseModel::Mail { .. } => SmtpState::Mail,
        PhaseModel::Rcpt { .. } => SmtpState::Rcpt,
        PhaseModel::Data { .. } => SmtpState::Data,
        PhaseModel::Closed => SmtpState::Invalid,
    }
}

//------ The machine model ----------------------------------------------------------

/// The model of the whole machine: the client address, both postures, the
/// configured mechanism, the phase, and whether the body sink has failed
pub struct MachineModel {
    pub ip: IpAddress,
    pub auth: AuthState,
    pub tls: TlsState,
    pub auth_plain: bool,
    pub phase: PhaseModel,
    pub sink_failed: bool,
}

/// The verdict the handler returned for one command, or `NoCall` where no
/// callback was consulted
pub enum Outcome {
    NoCall,
    Helo(HeloResult),
    Mail(MailResult),
    Rcpt(RcptResult),
    Data(DataVerdict),
    Auth(AuthResult),
}

/// A DATA verdict with the sink abstracted away
#[derive(PartialEq, Eq, Structural, Clone, Copy, Debug)]
pub enum DataVerdict {
    Accepted,
    InternalError,
    TransactionFailed,
    NoService,
}

/// The DATA verdict carried by a handler result
pub open spec fn data_verdict<S: Sink>(r: DataResult<S>) -> DataVerdict {
    match r {
        DataResult::Accepted(_) => DataVerdict::Accepted,
        DataResult::InternalError => DataVerdict::InternalError,
        DataResult::TransactionFailed => DataVerdict::TransactionFailed,
        DataResult::NoService => DataVerdict::NoService,
    }
}

/// Which handler callback one command in one state consults
pub enum CallKind {
    NoCallback,
    CallHelo,
    CallMail,
    CallRcpt,
    CallData,
    CallAuthPlain,
}

/// Is AUTH PLAIN usable: configured, and the channel is encrypted?
pub open spec fn allow_auth_plain(m: MachineModel) -> bool {
    m.auth_plain && m.tls is Active
}

/// Which callback the machine consults for command `c` in state `m`
pub open spec fn call_kind(m: MachineModel, c: CmdModel) -> CallKind {
    match m.phase {
        PhaseModel::Closed => CallKind::NoCallback,
        PhaseModel::Data { .. } => CallKind::NoCallback,
        PhaseModel::Auth { .. } => if c is AuthResponse {
            CallKind::CallAuthPlain
        } else {
            CallKind::NoCallback
        },
        _ => match c {
            CmdModel::Helo { .. } => if m.auth is Unavailable {
                CallKind::CallHelo
            } else {
                CallKind::NoCallback
            },
            CmdModel::Ehlo { .. } => CallKind::CallHelo,
            CmdModel::Mail { .. } => if m.phase is Hello {
                CallKind::CallMail
            } else {
                CallKind::NoCallback
            },
            CmdModel::Rcpt { .. } => if m.phase is Mail || m.phase is Rcpt {
                CallKind::CallRcpt
            } else {
                CallKind::NoCallback
            },
            CmdModel::Data => if m.phase is Rcpt {
                CallKind::CallData
            } else {
                CallKind::NoCallback
            },
            CmdModel::AuthPlain { .. } => if m.phase is HelloAuth && allow_auth_plain(m) {
                CallKind::CallAuthPlain
            } else {
                CallKind::NoCallback
            },
            _ => CallKind::NoCallback,
        },
    }
}

/// Is the verdict `o` of the kind that `call_kind` prescribes?
pub open spec fn valid_outcome(m: MachineModel, c: CmdModel, o: Outcome) -> bool {
    match call_kind(m, c) {
        CallKind::NoCallback => o is NoCall,
        CallKind::CallHelo => o is Helo,
        CallKind::CallMail => o is Mail,
        CallKind::CallRcpt => o is Rcpt,
        CallKind::CallData => o is Data,
        CallKind::CallAuthPlain => o is Auth,
    }
}

//------ The transition relation ------------------------------------------------------

/// Where RSET (or an implicit reset) sends the session: back to Hello, or
/// to HelloAuth while authentication is still required
pub open spec fn rset_phase(auth: AuthState, domain: Seq<u8>) -> PhaseModel {
    if auth is Unavailable || auth is Authenticated {
        PhaseModel::Hello { domain }
    } else {
        PhaseModel::HelloAuth { domain }
    }
}

/// The rule every handler-driven response obeys: a closing response ends
/// the session, an error keeps the old phase, success moves to `next`
pub open spec fn advance(m: MachineModel, r: ResponseModel, next: PhaseModel) -> (
    MachineModel,
    ResponseModel,
) {
    if r.action is Close {
        (MachineModel { phase: PhaseModel::Closed, ..m }, r)
    } else if r.is_error {
        (m, r)
    } else {
        (MachineModel { phase: next, ..m }, r)
    }
}

/// The marker response for a successful EHLO; the session facade replaces
/// it with the multi-line reply listing the advertised extensions
pub open spec fn ehlo_marker_model() -> ResponseModel {
    crate::response::fixed_model(250, "", false, Action::Reply)
}

/// The HELO verdict carried by `o`
pub open spec fn outcome_helo(o: Outcome) -> HeloResult {
    match o {
        Outcome::Helo(h) => h,
        _ => HeloResult::Accepted,
    }
}

/// One step of the machine: from model `m`, command `c` and handler verdict
/// `o` to the next model and the response. Total: every phase and verb pair
/// is mapped, and the result is a function of its three arguments.
pub open spec fn step(m: MachineModel, c: CmdModel, o: Outcome) -> (MachineModel, ResponseModel) {
    match m.phase {
        PhaseModel::Closed => (m, empty_model()),
        PhaseModel::Data { domain } => match c {
            CmdModel::DataEnd => (
                MachineModel {
                    phase: PhaseModel::Hello { domain },
                    sink_failed: false,
                    ..m
                },
                if m.sink_failed {
                    transaction_failed_model()
                } else {
                    ok_model()
                },
            ),
            CmdModel::Quit => (MachineModel { phase: PhaseModel::Closed, ..m }, goodbye_model()),
            _ => (m, bad_sequence_model()),
        },
        PhaseModel::Auth { domain } => match c {
            CmdModel::AuthResponse { .. } => {
                let ar = match o {
                    Outcome::Auth(a) => a,
                    _ => AuthResult::Accepted,
                };
                if ar is Accepted {
                    (
                        MachineModel {
                            phase: PhaseModel::Hello { domain },
                            auth: AuthState::Authenticated,
                            ..m
                        },
                        authentication_ok_model(),
                    )
                } else {
                    (
                        MachineModel {
                            phase: PhaseModel::HelloAuth { domain },
                            auth: AuthState::RequiresAuth,
                            ..m
                        },
                        auth_response_model(ar),
                    )
                }
            },
            CmdModel::Quit => (MachineModel { phase: PhaseModel::Closed, ..m }, goodbye_model()),
            _ => (m, bad_sequence_model()),
        },
        _ => step_open(m, c, o),
    }
}

/// `step` in the phases that accept ordinary commands: Idle, Hello,
/// HelloAuth, Mail and Rcpt
pub open spec fn step_open(m: MachineModel, c: CmdModel, o: Outcome) -> (
    MachineModel,
    ResponseModel,
) {
    match c {
        CmdModel::Quit => (MachineModel { phase: PhaseModel::Closed, ..m }, goodbye_model()),
        CmdModel::Noop => (m, ok_model()),
        CmdModel::StartedTls => if m.phase is Idle {
            (MachineModel { tls: TlsState::Active, ..m }, empty_model())
        } else {
            (m, bad_sequence_model())
        },
        CmdModel::Helo { domain } => if m.auth is Unavailable {
            advance(m, helo_response_model(outcome_helo(o)), PhaseModel::Hello { domain })
        } else {
            (m, bad_hello_model())
        },
        CmdModel::Ehlo { domain } => {
            let hr = outcome_helo(o);
            let resp = if hr is Accepted {
                ehlo_marker_model()
            } else {
                helo_response_model(hr)
            };
            let next = if m.auth is RequiresAuth {
                PhaseModel::HelloAuth { domain }
            } else {
                PhaseModel::Hello { domain }
            };
            advance(m, resp, next)
        },
        CmdModel::Rset => match m.phase {
            PhaseModel::Idle => (m, ok_model()),
            PhaseModel::Hello { domain } => (
                MachineModel { phase: rset_phase(m.auth, domain), ..m },
                ok_model(),
            ),
            PhaseModel::HelloAuth { domain } => (
                MachineModel { phase: rset_phase(m.auth, domain), ..m },
                ok_model(),
            ),
            PhaseModel::Mail { domain, .. } => (
                MachineModel { phase: rset_phase(m.auth, domain), ..m },
                ok_model(),
            ),
            PhaseModel::Rcpt { domain, .. } => (
                MachineModel { phase: rset_phase(m.auth, domain), ..m },
                ok_model(),
            ),
            _ => (m, bad_sequence_model()),
        },
        CmdModel::Vrfy => if m.phase is Hello {
            (m, verify_model())
        } else {
            (m, bad_sequence_model())
        },
        CmdModel::StartTls => if (m.phase is Hello || m.phase is HelloAuth) && m.tls
            is Inactive {
            (MachineModel { phase: PhaseModel::Idle, ..m }, start_tls_model())
        } else {
            (m, bad_sequence_model())
        },
        CmdModel::Mail { reverse_path, is8bit } => match m.phase {
            PhaseModel::Hello { domain } => {
                let mr = match o {
                    Outcome::Mail(v) => v,
                    _ => MailResult::Accepted,
                };
                advance(
                    m,
                    mail_response_model(mr),
                    PhaseModel::Mail { domain, reverse_path, is8bit },
                )
            },
            _ => (m, bad_sequence_model()),
        },
        CmdModel::Rcpt { forward_path } => match m.phase {
            PhaseModel::Mail { domain, reverse_path, is8bit } => {
                let rr = match o {
                    Outcome::Rcpt(v) => v,
                    _ => RcptResult::Accepted,
                };
                advance(
                    m,
                    rcpt_response_model(rr),
                    PhaseModel::Rcpt {
                        domain,
                        reverse_path,
                        is8bit,
                        forward_path: seq![forward_path],
                    },
                )
            },
            PhaseModel::Rcpt { domain, reverse_path, is8bit, forward_path: fps } => {
                let rr = match o {
                    Outcome::Rcpt(v) => v,
                    _ => RcptResult::Accepted,
                };
                advance(
                    m,
                    rcpt_response_model(rr),
                    PhaseModel::Rcpt {
                        domain,
                        reverse_path,
                        is8bit,
                        forward_path: fps.push(forward_path),
                    },
                )
            },
            _ => (m, bad_sequence_model()),
        },
        CmdModel::Data => match m.phase {
            PhaseModel::Rcpt { domain, .. } => {
                let dv = match o {
                    Outcome::Data(v) => v,
                    _ => DataVerdict::Accepted,
                };
                match dv {
                    DataVerdict::Accepted => (
                        MachineModel {
                            phase: PhaseModel::Data { domain },
                            sink_failed: false,
                            ..m
                        },
                        start_data_model(),
                    ),
                    DataVerdict::InternalError => (m, internal_error_model()),
                    DataVerdict::TransactionFailed => (m, transaction_failed_model()),
                    DataVerdict::NoService => (
                        MachineModel { phase: PhaseModel::Closed, ..m },
                        no_service_model(),
                    ),
                }
            },
            _ => (m, bad_sequence_model()),
        },
        CmdModel::AuthPlain { .. } => match m.phase {
            PhaseModel::HelloAuth { domain } => if allow_auth_plain(m) {
                let ar = match o {
                    Outcome::Auth(a) => a,
                    _ => AuthResult::Accepted,
                };
                if ar is Accepted {
                    (
                        MachineModel {
                            phase: PhaseModel::Hello { domain },
                            auth: AuthState::Authenticated,
                            ..m
                        },
                        authentication_ok_model(),
                    )
                } else {
                    (
                        MachineModel { auth: AuthState::RequiresAuth, ..m },
                        auth_response_model(ar),
                    )
                }
            } else {
                (m, bad_sequence_model())
            },
            _ => (m, bad_sequence_model()),
        },
        CmdModel::AuthPlainEmpty => match m.phase {
            PhaseModel::HelloAuth { domain } => if allow_auth_plain(m) {
                (
                    MachineModel { phase: PhaseModel::Auth { domain }, ..m },
                    auth_challenge_model(),
                )
            } else {
                (m, bad_sequence_model())
            },
            _ => (m, bad_sequence_model()),
        },
        _ => (m, bad_sequence_model()),
    }
}

/// Is `code` one of the documented SMTP reply codes, or the code of the
/// empty response?
pub open spec fn documented_code(code: u16) -> bool {
    code == 0 || code == 220 || code == 221 || code == 235 || code == 250 || code == 252 || code
        == 334 || code == 354 || code == 421 || code == 451 || code == 452 || code == 454 || code
        == 500 || code == 502 || code == 503 || code == 530 || code == 535 || code == 550 || code
        == 552 || code == 553 || code == 554
}

/// For every machine state, every command and every handler verdict, one
/// step of the engine is defined: `step` is a total function, so the
/// response and the next phase are deterministic once the handler's
/// verdict is fixed, and the response code is always documented. An empty
/// code belongs exactly to the responses that carry no output.
pub proof fn lemma_engine_total(m: MachineModel, c: CmdModel, o: Outcome)
    ensures
        documented_code(step(m, c, o).1.code),
        step(m, c, o).1.code == 0 ==> step(m, c, o).1.lines.len() == 0,
{
}

/// A closing response ends the session, and a closed machine produces no
/// further output: every later step leaves the machine unchanged and
/// yields the empty response, whose wire form is empty.
pub proof fn lemma_close_is_terminal(m: MachineModel, c: CmdModel, o: Outcome)
    ensures
        step(m, c, o).1.action is Close ==> step(m, c, o).0.phase is Closed,
        m.phase is Closed ==> step(m, c, o) == (m, empty_model()),
        empty_model().wire_form() == Seq::<u8>::empty(),
{
    assert(empty_model().wire_form() =~= Seq::<u8>::empty());
}

//------ Body lines ------------------------------------------------------------------

/// The line that ends the message body
pub open spec fn is_data_end(l: Seq<u8>) -> bool {
    l == seq![46u8, 13u8, 10u8]
}

/// Reverse dot-stuffing: a body line whose first byte is `.` and that has
/// further content loses that first byte; every other line is unchanged
pub open spec fn unstuff(l: Seq<u8>) -> Seq<u8> {
    if l.len() > 0 && l[0] == 46 {
        l.drop_first()
    } else {
        l
    }
}

/// What the machine makes of one raw line: a command to run, or a response
/// to send at once
pub enum LineEvent {
    /// A command for [`StateMachine::command`]
    Command(Cmd),
    /// An immediate response; during the body it is the empty response
    Reply(Response),
}

//------ The machine -------------------------------------------------------------------

/// The SMTP state machine. `S` is the sink type that receives message
/// bodies; it is owned by the machine only while the phase is `Data`.
pub struct StateMachine<S: Sink> {
    /// The connected client's address
    pub ip: IpAddress,
    /// The authentication posture
    pub auth: AuthState,
    /// The TLS posture
    pub tls: TlsState,
    /// Is the PLAIN mechanism configured?
    pub auth_plain: bool,
    /// The protocol phase
    pub phase: Phase,
    /// The body sink, present exactly while the phase is `Data`
    pub sink: Option<S>,
    /// Has the sink failed during this body?
    pub sink_failed: bool,
}

impl<S: Sink> View for StateMachine<S> {
    type V = MachineModel;

    open spec fn view(&self) -> MachineModel {
        MachineModel {
            ip: self.ip,
            auth: self.auth,
            tls: self.tls,
            auth_plain: self.auth_plain,
            phase: self.phase@,
            sink_failed: self.sink_failed,
        }
    }
}

impl<S: Sink> StateMachine<S> {
    /// The machine owns a sink exactly while it is receiving a body, and
    /// owns it well-formed
    pub open spec fn wf(&self) -> bool {
        &&& self.phase is Data <==> self.sink is Some
        &&& self.sink matches Some(s) ==> s.inv()
    }

    /// A machine for a fresh connection: authentication is required iff a
    /// mechanism is configured, STARTTLS is offered iff requested
    pub fn new(ip: IpAddress, auth_mechanisms: &[AuthMechanism], allow_start_tls: bool) -> (m:
        StateMachine<S>)
        ensures
            m.wf(),
            m@ == (MachineModel {
                ip,
                auth: if auth_mechanisms@.len() == 0 {
                    AuthState::Unavailable
                } else {
                    AuthState::RequiresAuth
                },
                tls: if allow_start_tls {
                    TlsState::Inactive
                } else {
                    TlsState::Unavailable
                },
                auth_plain: auth_mechanisms@.len() > 0,
                phase: PhaseModel::Idle,
                sink_failed: false,
            }),
    {
        let auth = if auth_mechanisms.len() == 0 {
            AuthState::Unavailable
        } else {
            AuthState::RequiresAuth
        };
        let tls = if allow_start_tls {
            TlsState::Inactive
        } else {
            TlsState::Unavailable
        };
        let mut auth_plain = false;
        let mut i: usize = 0;
        while i < auth_mechanisms.len()
            invariant
                i <= auth_mechanisms@.len(),
                auth_plain == (i > 0),
            decreases auth_mechanisms@.len() - i,
        {
            match auth_mechanisms[i] {
                AuthMechanism::Plain => {
                    auth_plain = true;
                },
            }
            i = i + 1;
        }
        StateMachine {
            ip,
            auth,
            tls,
            auth_plain,
            phase: Phase::Idle,
            sink: None,
            sink_failed: false,
        }
    }

    /// The coarse name of the current phase
    pub fn current_state(&self) -> (t: SmtpState)
        ensures
            t == state_tag(self@.phase),
    {
        match &self.phase {
            Phase::Idle => SmtpState::Idle,
            Phase::Hello { .. } => SmtpState::Hello,
            Phase::HelloAuth { .. } => SmtpState::HelloAuth,
            Phase::Auth { .. } => SmtpState::Auth,
            Phase::Mail { .. } => SmtpState::Mail,
            Phase::Rcpt { .. } => SmtpState::Rcpt,
            Phase::Data { .. } => SmtpState::Data,
            Phase::Closed => SmtpState::Invalid,
        }
    }

    /// Respond and change state with the given command. The result and the
    /// new state follow [`step`] for the verdict the handler returned; where
    /// no callback is consulted the verdict is `NoCall`, so the outcome is
    /// then a function of the old state and the command alone.
    #[verifier::rlimit(60)]
    pub fn command<H: Handler<MessageSink = S>>(&mut self, handler: &mut H, cmd: Cmd) -> (r:
        Response)
        requires
            old(self).wf(),
        ensures
            final(self).wf(),
            exists|o: Outcome|
                valid_outcome(old(self)@, cmd@, o) && step(old(self)@, cmd@, o) == (
                    final(self)@,
                    r@,
                ),
    {
        let ghost m0 = self@;
        let ghost c0 = cmd@;
        let mut prev = Phase::Idle;
        core::mem::swap(&mut prev, &mut self.phase);
        match (prev, cmd) {
            (Phase::Closed, _) => {
                self.phase = Phase::Closed;
                let r = Response::empty();
                proof {
                    assert(valid_outcome(m0, c0, Outcome::NoCall) && step(m0, c0, Outcome::NoCall)
                        == (self@, r@));
                }
                r
            },
            (Phase::Data { domain }, Cmd::DataEnd) => {
                let sink = self.sink.take();
                let failed = self.sink_failed;
                self.sink_failed = false;
                self.phase = Phase::Hello { domain };
                let r = if failed {
                    Response::transaction_failed()
                } else {
                    match sink {
                        Some(s) => s.commit(),
                        None => (),
                    }
                    Response::ok()
                };
                proof {
                    assert(valid_outcome(m0, c0, Outcome::NoCall) && step(m0, c0, Outcome::NoCall)
                        == (self@, r@));
                }
                r
            },
            (Phase::Data { .. }, Cmd::Quit) => {
                self.sink = None;
                self.phase = Phase::Closed;
                let r = Response::goodbye();
                proof {
                    assert(valid_outcome(m0, c0, Outcome::NoCall) && step(m0, c0, Outcome::NoCall)
                        == (self@, r@));
                }
                r
            },
            (Phase::Data { domain }, _) => {
                self.phase = Phase::Data { domain };
                let r = Response::bad_sequence();
                proof {
                    assert(valid_outcome(m0, c0, Outcome::NoCall) && step(m0, c0, Outcome::NoCall)
                        == (self@, r@));
                }
                r
            },
            (Phase::Auth { domain, mechanism }, Cmd::AuthResponse { response }) => {
                let creds = match mechanism {
                    AuthMechanism::Plain => decode_sasl_plain(response.as_slice()),
                };
                let ar = handler.auth_plain(
                    creds.authorization_id.as_slice(),
                    creds.authentication_id.as_slice(),
                    creds.password.as_slice(),
                );
                let r = auth_response(&ar);
                if ar == AuthResult::Accepted {
                    self.auth = AuthState::Authenticated;
                    self.phase = Phase::Hello { domain };
                } else {
                    self.auth = AuthState::RequiresAuth;
                    self.phase = Phase::HelloAuth { domain };
                }
                proof {
                    assert(valid_outcome(m0, c0, Outcome::Auth(ar)) && step(
                        m0,
                        c0,
                        Outcome::Auth(ar),
                    ) == (self@, r@));
                }
                r
            },
            (Phase::Auth { .. }, Cmd::Quit) => {
                self.phase = Phase::Closed;
                let r = Response::goodbye();
                proof {
                    assert(valid_outcome(m0, c0, Outcome::NoCall) && step(m0, c0, Outcome::NoCall)
                        == (self@, r@));
                }
                r
            },
            (Phase::Auth { domain, mechanism }, _) => {
                self.phase = Phase::Auth { domain, mechanism };
                let r = Response::bad_sequence();
                proof {
                    assert(valid_outcome(m0, c0, Outcome::NoCall) && step(m0, c0, Outcome::NoCall)
                        == (self@, r@));
                }
                r
            },
            (Phase::Hello { domain }, Cmd::Mail { reverse_path, is8bit }) => {
                let mr = handler.mail(&self.ip, domain.as_slice(), reverse_path.as_slice());
                let r = mail_response(&mr);
                if r.action == Action::Close {
                    self.phase = Phase::Closed;
                } else if r.is_error {
                    self.phase = Phase::Hello { domain };
                } else {
                    self.phase = Phase::Mail { domain, reverse_path, is8bit };
                }
                proof {
                    assert(valid_outcome(m0, c0, Outcome::Mail(mr)) && step(
                        m0,
                        c0,
                        Outcome::Mail(mr),
                    ) == (self@, r@));
                }
                r
            },
            (Phase::Hello { domain }, Cmd::Vrfy) => {
                self.phase = Phase::Hello { domain };
                let r = Response::verify_response();
                proof {
                    assert(valid_outcome(m0, c0, Outcome::NoCall) && step(m0, c0, Outcome::NoCall)
                        == (self@, r@));
                }
                r
            },
            (Phase::Mail { domain, reverse_path, is8bit }, Cmd::Rcpt { forward_path }) => {
                let rr = handler.rcpt(forward_path.as_slice());
                let r = rcpt_response(&rr);
                if r.action == Action::Close {
                    self.phase = Phase::Closed;
                } else if r.is_error {
                    self.phase = Phase::Mail { domain, reverse_path, is8bit };
                } else {
                    let mut fps: Vec<Vec<u8>> = Vec::new();
                    fps.push(forward_path);
                    assert(fps.deep_view() =~~= seq![c0->Rcpt_forward_path]);
                    self.phase = Phase::Rcpt { domain, reverse_path, is8bit, forward_path: fps };
                }
                proof {
                    assert(valid_outcome(m0, c0, Outcome::Rcpt(rr)) && step(
                        m0,
                        c0,
                        Outcome::Rcpt(rr),
                    ) == (self@, r@));
                }
                r
            },
            (
                Phase::Rcpt { domain, reverse_path, is8bit, forward_path: fps },
                Cmd::Rcpt { forward_path },
            ) => {
                let rr = handler.rcpt(forward_path.as_slice());
                let r = rcpt_response(&rr);
                let ghost fps0 = fps.deep_view();
                if r.action == Action::Close {
                    self.phase = Phase::Closed;
                } else if r.is_error {
                    self.phase = Phase::Rcpt { domain, reverse_path, is8bit, forward_path: fps };
                } else {
                    let mut fps2 = fps;
                    fps2.push(forward_path);
                    assert(fps2.deep_view() =~~= fps0.push(c0->Rcpt_forward_path));
                    self.phase = Phase::Rcpt { domain, reverse_path, is8bit, forward_path: fps2 };
                }
                proof {
                    assert(valid_outcome(m0, c0, Outcome::Rcpt(rr)) && step(
                        m0,
                        c0,
                        Outcome::Rcpt(rr),
                    ) == (self@, r@));
                }
                r
            },
            (Phase::Rcpt { domain, reverse_path, is8bit, forward_path: fps }, Cmd::Data) => {
                let dr = handler.data(
                    domain.as_slice(),
                    reverse_path.as_slice(),
                    is8bit,
                    &fps,
                );
                let ghost dv = data_verdict(dr);
                let r;
                match dr {
                    DataResult::Accepted(sink) => {
                        self.sink = Some(sink);
                        self.sink_failed = false;
                        self.phase = Phase::Data { domain };
                        r = Response::start_data();
                    },
                    DataResult::InternalError => {
                        self.phase = Phase::Rcpt {
                            domain,
                            reverse_path,
                            is8bit,
                            forward_path: fps,
                        };
                        r = Response::internal_error();
                    },
                    DataResult::TransactionFailed => {
                        self.phase = Phase::Rcpt {
                            domain,
                            reverse_path,
                            is8bit,
                            forward_path: fps,
                        };
                        r = Response::transaction_failed();
                    },
                    DataResult::NoService => {
                        self.phase = Phase::Closed;
                        r = Response::no_service();
                    },
                }
                proof {
                    assert(valid_outcome(m0, c0, Outcome::Data(dv)) && step(
                        m0,
                        c0,
                        Outcome::Data(dv),
                    ) == (self@, r@));
                }
                r
            },
            (Phase::HelloAuth { domain }, Cmd::AuthPlain {
                authorization_id,
                authentication_id,
                password,
            }) => {
                if self.auth_plain && self.tls == TlsState::Active {
                    let ar = handler.auth_plain(
                        authorization_id.as_slice(),
                        authentication_id.as_slice(),
                        password.as_slice(),
                    );
                    let r = auth_response(&ar);
                    if ar == AuthResult::Accepted {
                        self.auth = AuthState::Authenticated;
                        self.phase = Phase::Hello { domain };
                    } else {
                        self.auth = AuthState::RequiresAuth;
                        self.phase = Phase::HelloAuth { domain };
                    }
                    proof {
                        assert(valid_outcome(m0, c0, Outcome::Auth(ar)) && step(
                            m0,
                            c0,
                            Outcome::Auth(ar),
                        ) == (self@, r@));
                    }
                    r
                } else {
                    self.phase = Phase::HelloAuth { domain };
                    let r = Response::bad_sequence();
                    proof {
                        assert(valid_outcome(m0, c0, Outcome::NoCall) && step(
                            m0,
                            c0,
                            Outcome::NoCall,
                        ) == (self@, r@));
                    }
                    r
                }
            },
            (Phase::HelloAuth { domain }, Cmd::AuthPlainEmpty) => {
                if self.auth_plain && self.tls == TlsState::Active {
                    self.phase = Phase::Auth { domain, mechanism: AuthMechanism::Plain };
                    let r = Response::auth_challenge();
                    proof {
                        assert(valid_outcome(m0, c0, Outcome::NoCall) && step(
                            m0,
                            c0,
                            Outcome::NoCall,
                        ) == (self@, r@));
                    }
                    r
                } else {
                    self.phase = Phase::HelloAuth { domain };
                    let r = Response::bad_sequence();
                    proof {
                        assert(valid_outcome(m0, c0, Outcome::NoCall) && step(
                            m0,
                            c0,
                            Outcome::NoCall,
                        ) == (self@, r@));
                    }
                    r
                }
            },
            (prev, cmd) => self.open_command(Ghost(m0), Ghost(c0), handler, prev, cmd),
        }
    }

    /// The commands whose handling does not depend on the data of the
    /// current open phase: QUIT, NOOP, HELO, EHLO, RSET, STARTTLS, the TLS
    /// completion mark, and everything that is out of sequence
    fn open_command<H: Handler<MessageSink = S>>(
        &mut self,
        Ghost(m0): Ghost<MachineModel>,
        Ghost(c0): Ghost<CmdModel>,
        handler: &mut H,
        prev: Phase,
        cmd: Cmd,
    ) -> (r: Response)
        requires
            old(self)@.phase is Idle,
            old(self).sink is None,
            m0 == (MachineModel { phase: prev@, ..old(self)@ }),
            c0 == cmd@,
            !(prev@ is Data),
            !(prev@ is Closed),
            !(prev@ is Auth),
            // the pairs already handled by `command`
            !(prev@ is Hello && (c0 is Mail || c0 is Vrfy)),
            !(prev@ is Mail && c0 is Rcpt),
            !(prev@ is Rcpt && (c0 is Rcpt || c0 is Data)),
            !(prev@ is HelloAuth && (c0 is AuthPlain || c0 is AuthPlainEmpty)),
        ensures
            final(self).wf(),
            exists|o: Outcome|
                valid_outcome(m0, c0, o) && step(m0, c0, o) == (final(self)@, r@),
    {
        match (prev, cmd) {
            (prev, Cmd::Quit) => {
                self.phase = Phase::Closed;
                let r = Response::goodbye();
                proof {
                    assert(valid_outcome(m0, c0, Outcome::NoCall) && step(m0, c0, Outcome::NoCall)
                        == (self@, r@));
                }
                r
            },
            (prev, Cmd::Noop) => {
                self.phase = prev;
                let r = Response::ok();
                proof {
                    assert(valid_outcome(m0, c0, Outcome::NoCall) && step(m0, c0, Outcome::NoCall)
                        == (self@, r@));
                }
                r
            },
            (Phase::Idle, Cmd::StartedTls) => {
                self.tls = TlsState::Active;
                self.phase = Phase::Idle;
                let r = Response::empty();
                proof {
                    assert(valid_outcome(m0, c0, Outcome::NoCall) && step(m0, c0, Outcome::NoCall)
                        == (self@, r@));
                }
                r
            },
            (prev, Cmd::Helo { domain }) => {
                if self.auth == AuthState::Unavailable {
                    let hr = handler.helo(&self.ip, domain.as_slice());
                    let r = helo_response(&hr);
                    if r.action == Action::Close {
                        self.phase = Phase::Closed;
                    } else if r.is_error {
                        self.phase = prev;
                    } else {
                        self.phase = Phase::Hello { domain };
                    }
                    proof {
                        assert(valid_outcome(m0, c0, Outcome::Helo(hr)) && step(
                            m0,
                            c0,
                            Outcome::Helo(hr),
                        ) == (self@, r@));
                    }
                    r
                } else {
                    self.phase = prev;
                    let r = Response::bad_hello();
                    proof {
                        assert(valid_outcome(m0, c0, Outcome::NoCall) && step(
                            m0,
                            c0,
                            Outcome::NoCall,
                        ) == (self@, r@));
                    }
                    r
                }
            },
            (prev, Cmd::Ehlo { domain }) => {
                let hr = handler.helo(&self.ip, domain.as_slice());
                let r = if hr == HeloResult::Accepted {
                    Response::ehlo_ok()
                } else {
                    helo_response(&hr)
                };
                if r.action == Action::Close {
                    self.phase = Phase::Closed;
                } else if r.is_error {
                    self.phase = prev;
                } else if self.auth == AuthState::RequiresAuth {
                    self.phase = Phase::HelloAuth { domain };
                } else {
                    self.phase = Phase::Hello { domain };
                }
                proof {
                    assert(valid_outcome(m0, c0, Outcome::Helo(hr)) && step(
                        m0,
                        c0,
                        Outcome::Helo(hr),
                    ) == (self@, r@));
                }
                r
            },
            (prev, Cmd::Rset) => {
                let next = match prev {
                    Phase::Idle => Phase::Idle,
                    Phase::Hello { domain } => self.rset_target(domain),
                    Phase::HelloAuth { domain } => self.rset_target(domain),
                    Phase::Mail { domain, .. } => self.rset_target(domain),
                    Phase::Rcpt { domain, .. } => self.rset_target(domain),
                    other => other,
                };
                self.phase = next;
                let r = Response::ok();
                proof {
                    assert(valid_outcome(m0, c0, Outcome::NoCall) && step(m0, c0, Outcome::NoCall)
                        == (self@, r@));
                }
                r
            },
            (prev, Cmd::StartTls) => {
                let at_hello = match &prev {
                    Phase::Hello { .. } => true,
                    Phase::HelloAuth { .. } => true,
                    _ => false,
                };
                if at_hello && self.tls == TlsState::Inactive {
                    self.phase = Phase::Idle;
                    let r = Response::start_tls();
                    proof {
                        assert(valid_outcome(m0, c0, Outcome::NoCall) && step(
                            m0,
                            c0,
                            Outcome::NoCall,
                        ) == (self@, r@));
                    }
                    r
                } else {
                    self.phase = prev;
                    let r = Response::bad_sequence();
                    proof {
                        assert(valid_outcome(m0, c0, Outcome::NoCall) && step(
                            m0,
                            c0,
                            Outcome::NoCall,
                        ) == (self@, r@));
                    }
                    r
                }
            },
            (prev, _) => {
                self.phase = prev;
                let r = Response::bad_sequence();
                proof {
                    assert(valid_outcome(m0, c0, Outcome::NoCall) && step(m0, c0, Outcome::NoCall)
                        == (self@, r@));
                }
                r
            },
        }
    }

    /// The bytes the body sink has accepted, empty while there is no sink
    pub open spec fn sink_contents(&self) -> Seq<u8> {
        match self.sink {
            Some(s) => s.contents(),
            None => seq![],
        }
    }

    /// Turn one raw client line into a command or an immediate response.
    /// In most phases the line parser decides. While a body is being
    /// received, the line `.` ends it and every other line is appended to
    /// the sink with reverse dot-stuffing applied: a leading `.` with more
    /// content behind it is removed, and once the sink has failed the rest
    /// of the body is discarded. While an authentication exchange is open,
    /// every line is its base64 continuation.
    pub fn process_line(&mut self, line: &[u8]) -> (ev: LineEvent)
        requires
            old(self).wf(),
        ensures
            final(self).wf(),
            final(self)@ == (MachineModel { sink_failed: final(self)@.sink_failed, ..old(self)@ }),
            old(self)@.phase is Closed ==> *final(self) == *old(self) && (ev matches
                LineEvent::Reply(r) && r@ == empty_model()),
            old(self)@.phase is Data ==> {
                if is_data_end(line@) {
                    &&& *final(self) == *old(self)
                    &&& ev matches LineEvent::Command(c) && c@ == CmdModel::DataEnd
                } else {
                    &&& ev matches LineEvent::Reply(r) && r@ == empty_model()
                    &&& old(self).sink_failed ==> *final(self) == *old(self)
                    &&& !old(self).sink_failed ==> (
                    !final(self).sink_failed && final(self).sink_contents() == old(self).sink_contents() + unstuff(line@) || final(self).sink_failed && final(self).sink_contents() == old(self).sink_contents())
                }
            },
            old(self)@.phase is Auth ==> *final(self) == *old(self) && (match spec_auth_response(
                line@,
            ) {
                Some(b) => ev matches LineEvent::Command(c) && c@ == (CmdModel::AuthResponse {
                    response: b,
                }),
                None => ev matches LineEvent::Reply(r) && r@ == syntax_error_model(),
            }),
            !(old(self)@.phase is Closed) && !(old(self)@.phase is Data) && !(old(self)@.phase
                is Auth) ==> *final(self) == *old(self) && (match spec_parse(line@) {
                LineParse::Command(c) => ev matches LineEvent::Command(cc) && cc@ == c,
                LineParse::Missing => ev matches LineEvent::Reply(r) && r@
                    == crate::response::missing_parameter_model(),
                LineParse::Malformed => ev matches LineEvent::Reply(r) && r@
                    == syntax_error_model(),
            }),
    {
        match &self.phase {
            Phase::Closed => LineEvent::Reply(Response::empty()),
            Phase::Data { .. } => {
                if line.len() == 3 && line[0] == 46 && line[1] == 13 && line[2] == 10 {
                    assert(line@ =~= seq![46u8, 13u8, 10u8]);
                    LineEvent::Command(Cmd::DataEnd)
                } else {
                    assert(!is_data_end(line@));
                    if !self.sink_failed {
                        let payload = if line.len() > 0 && line[0] == 46 {
                            slice_subrange(line, 1, line.len())
                        } else {
                            line
                        };
                        assert(payload@ =~= unstuff(line@));
                        let mut s = self.sink.take().unwrap();
                        let ok = s.append(payload);
                        if !ok {
                            self.sink_failed = true;
                        }
                        self.sink = Some(s);
                    }
                    LineEvent::Reply(Response::empty())
                }
            },
            Phase::Auth { .. } => match parse_auth_response(line) {
                Ok(bytes) => LineEvent::Command(Cmd::AuthResponse { response: bytes }),
                Err(r) => LineEvent::Reply(r),
            },
            _ => match parse(line) {
                Ok(cmd) => LineEvent::Command(cmd),
                Err(r) => LineEvent::Reply(r),
            },
        }
    }

    /// Where RSET sends this machine from a phase announcing `domain`
    fn rset_target(&self, domain: Vec<u8>) -> (p: Phase)
        ensures
            p@ == rset_phase(self.auth, domain@),
    {
        if self.auth == AuthState::Unavailable || self.auth == AuthState::Authenticated {
            Phase::Hello { domain }
        } else {
            Phase::HelloAuth { domain }
        }
    }
}

} // verus!
