//! The session facade for embedders: it holds the configuration (server
//! name, offered STARTTLS, authentication mechanisms) together with the
//! state machine and the per-connection handler, turns raw lines into
//! responses, and builds the greeting and the multi-line EHLO reply.

use vstd::prelude::*;

verus! {

use crate::auth::AuthMechanism;
use crate::cmd::CmdModel;
use crate::fsm::{
    LineEvent, MachineModel, Outcome, PhaseModel, SmtpState, StateMachine, TlsState,
    is_data_end, state_tag, step, unstuff, valid_outcome,
};
use crate::handler::Handler;
use crate::ip::IpAddress;
use crate::parser::{LineParse, spec_auth_response, spec_parse};
use crate::response::{
    Action, Response, ResponseModel, empty_model, syntax_error_model, missing_parameter_model,
};
use vstd::string::StringExecFns;
use vstd::string::StringSliceAdditionalSpecFns;
use vstd::utf8::encode_utf8;

/// Builds an smtp `Session`
pub struct SessionBuilder {
    /// The server name announced in the greeting and the EHLO reply
    pub name: String,
    /// Whether STARTTLS is offered to clients
    pub start_tls_extension: bool,
    /// The authentication mechanisms the server supports
    pub auth_mechanisms: Vec<AuthMechanism>,
}

impl SessionBuilder {
    /// Create a new session builder for the given mailserver name
    pub fn new(name: String) -> (b: SessionBuilder)
        ensures
            b.name@ == name@,
            b.start_tls_extension == false,
            b.auth_mechanisms@.len() == 0,
    {
        SessionBuilder { name, start_tls_extension: false, auth_mechanisms: Vec::new() }
    }

    /// Enable support for StartTls
    pub fn enable_start_tls(&mut self)
        ensures
            *final(self) == (SessionBuilder { start_tls_extension: true, ..*old(self) }),
    {
        self.start_tls_extension = true;
    }

    /// Enable support for authentication
    pub fn enable_auth(&mut self, auth: AuthMechanism)
        ensures
            final(self).auth_mechanisms@ == old(self).auth_mechanisms@.push(auth),
            final(self).name == old(self).name,
            final(self).start_tls_extension == old(self).start_tls_extension,
    {
        self.auth_mechanisms.push(auth);
    }

    /// Build a new session to handle a connection from the given address,
    /// with the handler that will decide this connection's commands
    pub fn build<H: Handler>(&self, remote: IpAddress, handler: H) -> (s: Session<H>)
        ensures
            s.name@ == self.name@,
            s.auth_mechanisms@ == self.auth_mechanisms@,
            s.fsm.wf(),
            s.fsm@ == (MachineModel {
                ip: remote,
                auth: if self.auth_mechanisms@.len() == 0 {
                    crate::fsm::AuthState::Unavailable
                } else {
                    crate::fsm::AuthState::RequiresAuth
                },
                tls: if self.start_tls_extension {
                    TlsState::Inactive
                } else {
                    TlsState::Unavailable
                },
                auth_plain: self.auth_mechanisms@.len() > 0,
                phase: PhaseModel::Idle,
                sink_failed: false,
            }),
    {
        let mut mechanisms: Vec<AuthMechanism> = Vec::new();
        let mut i: usize = 0;
        while i < self.auth_mechanisms.len()
            invariant
                i <= self.auth_mechanisms@.len(),
                mechanisms@ == self.auth_mechanisms@.take(i as int),
            decreases self.auth_mechanisms@.len() - i,
        {
            mechanisms.push(self.auth_mechanisms[i]);
            assert(mechanisms@ =~= self.auth_mechanisms@.take(i + 1 as int));
            i = i + 1;
        }
        assert(mechanisms@ =~= self.auth_mechanisms@);
        let fsm = StateMachine::new(
            remote,
            self.auth_mechanisms.as_slice(),
            self.start_tls_extension,
        );
        Session { name: self.name.clone(), auth_mechanisms: mechanisms, fsm, handler }
    }
}

/// The model of the reply to a successful EHLO: the server name, then
/// `8BITMIME`, then either `STARTTLS` (only while TLS is possible but not
/// yet active) or the authentication mechanisms (only over TLS), so that
/// credentials are never invited onto a plaintext channel
pub open spec fn ehlo_model(
    name: Seq<char>,
    tls: TlsState,
    mechanisms: Seq<AuthMechanism>,
) -> ResponseModel {
    ResponseModel {
        code: 250,
        lines: seq![encode_utf8(name), "8BITMIME".spec_bytes()] + (if tls is Inactive {
            seq!["STARTTLS".spec_bytes()]
        } else if tls is Active {
            mechanisms.map_values(|m: AuthMechanism| "AUTH PLAIN".spec_bytes())
        } else {
            Seq::<Seq<u8>>::empty()
        }),
        is_error: false,
        action: Action::Reply,
    }
}

/// The model of the greeting: `220 <name> ESMTP`
pub open spec fn greeting_model(name: Seq<char>) -> ResponseModel {
    ResponseModel {
        code: 220,
        lines: seq![encode_utf8(name + " ESMTP"@)],
        is_error: false,
        action: Action::Reply,
    }
}

/// What one processed line yields: the machine follows [`step`] for the
/// command the line parses to, and a successful EHLO reply is replaced by
/// the multi-line reply listing the advertised extensions
pub open spec fn session_response(
    name: Seq<char>,
    mechanisms: Seq<AuthMechanism>,
    c: CmdModel,
    m1: MachineModel,
    resp: ResponseModel,
) -> ResponseModel {
    if c is Ehlo && !resp.is_error {
        ehlo_model(name, m1.tls, mechanisms)
    } else {
        resp
    }
}

/// A session: the configuration, the state machine, and the handler that
/// decides this connection's commands
pub struct Session<H: Handler> {
    /// The server name announced in the greeting and the EHLO reply
    pub name: String,
    /// The authentication mechanisms advertised once TLS is active
    pub auth_mechanisms: Vec<AuthMechanism>,
    /// The protocol state machine
    pub fsm: StateMachine<H::MessageSink>,
    /// The embedder's handler
    pub handler: H,
}

impl<H: Handler> Session<H> {
    /// Returns a greeting to send to a client
    pub fn greeting(&self) -> (r: Response)
        ensures
            r@ == greeting_model(self.name@),
    {
        let head = self.name.clone().concat(" ESMTP");
        Response::dynamic(220, head, Vec::new())
    }

    /// The multi-line reply to a successful EHLO
    fn ehlo_response(&self) -> (r: Response)
        ensures
            r@ == ehlo_model(self.name@, self.fsm.tls, self.auth_mechanisms@),
    {
        let mut tail: Vec<&'static str> = Vec::new();
        tail.push("8BITMIME");
        if self.fsm.tls == TlsState::Inactive {
            tail.push("STARTTLS");
            assert(tail@.map_values(|t: &'static str| t.spec_bytes()) =~= seq![
                "8BITMIME".spec_bytes(),
                "STARTTLS".spec_bytes(),
            ]);
        } else if self.fsm.tls == TlsState::Active {
            let mut i: usize = 0;
            while i < self.auth_mechanisms.len()
                invariant
                    i <= self.auth_mechanisms@.len(),
                    tail@.len() == 1 + i,
                    tail@[0] == "8BITMIME",
                    forall|j: int| 1 <= j < 1 + i ==> #[trigger] tail@[j] == "AUTH PLAIN",
                decreases self.auth_mechanisms@.len() - i,
            {
                let ext = self.auth_mechanisms[i].extension();
                assert(ext@ == "AUTH PLAIN"@);
                tail.push("AUTH PLAIN");
                i = i + 1;
            }
            assert(tail@.map_values(|t: &'static str| t.spec_bytes()) =~= seq![
                "8BITMIME".spec_bytes(),
            ] + self.auth_mechanisms@.map_values(|m: AuthMechanism| "AUTH PLAIN".spec_bytes()));
        } else {
            assert(tail@.map_values(|t: &'static str| t.spec_bytes()) =~= seq![
                "8BITMIME".spec_bytes(),
            ]);
        }
        let r = Response::dynamic(250, self.name.clone(), tail);
        proof {
            assert(r@.lines =~= ehlo_model(self.name@, self.fsm.tls, self.auth_mechanisms@).lines);
        }
        r
    }

    /// Process one CRLF-terminated line from the client (or, during the
    /// body, one body line) and return the response to send
    pub fn process(&mut self, line: &[u8]) -> (r: Response)
        requires
            old(self).fsm.wf(),
        ensures
            final(self).fsm.wf(),
            final(self).name@ == old(self).name@,
            final(self).auth_mechanisms@ == old(self).auth_mechanisms@,
            ({
                let m0 = old(self).fsm@;
                let m1 = final(self).fsm@;
                &&& m0.phase is Closed ==> m1 == m0 && r@ == empty_model()
                &&& m0.phase is Data ==> {
                    if is_data_end(line@) {
                        exists|o: Outcome|
                            valid_outcome(m0, CmdModel::DataEnd, o) && step(
                                m0,
                                CmdModel::DataEnd,
                                o,
                            ) == (m1, r@)
                    } else {
                        &&& r@ == empty_model()
                        &&& m1 == (MachineModel { sink_failed: m1.sink_failed, ..m0 })
                        &&& !old(self).fsm.sink_failed ==> (!final(self).fsm.sink_failed && final(self).fsm.sink_contents() == old(self).fsm.sink_contents() + unstuff(line@)
                            || final(self).fsm.sink_failed && final(self).fsm.sink_contents()
                            == old(self).fsm.sink_contents())
                        &&& old(self).fsm.sink_failed ==> final(self).fsm == old(self).fsm
                    }
                }
                &&& m0.phase is Auth ==> (match spec_auth_response(line@) {
                    Some(b) => exists|o: Outcome|
                        valid_outcome(m0, (CmdModel::AuthResponse { response: b }), o) && step(
                            m0,
                            (CmdModel::AuthResponse { response: b }),
                            o,
                        ) == (m1, r@),
                    None => m1 == m0 && r@ == syntax_error_model(),
                })
                &&& !(m0.phase is Closed) && !(m0.phase is Data) && !(m0.phase is Auth) ==> (
                match spec_parse(line@) {
                    LineParse::Command(c) => exists|o: Outcome|
                        valid_outcome(m0, c, o) && step(m0, c, o).0 == m1 && r@
                            == session_response(
                            old(self).name@,
                            old(self).auth_mechanisms@,
                            c,
                            m1,
                            step(m0, c, o).1,
                        ),
                    LineParse::Missing => m1 == m0 && r@ == missing_parameter_model(),
                    LineParse::Malformed => m1 == m0 && r@ == syntax_error_model(),
                })
            }),
    {
        let ev = self.fsm.process_line(line);
        match ev {
            LineEvent::Reply(r) => r,
            LineEvent::Command(cmd) => {
                let is_ehlo = match &cmd {
                    crate::cmd::Cmd::Ehlo { .. } => true,
                    _ => false,
                };
                let r = self.fsm.command(&mut self.handler, cmd);
                if is_ehlo && !r.is_error {
                    self.ehlo_response()
                } else {
                    r
                }
            },
        }
    }

    /// The embedder calls this after a successful TLS handshake: it drives
    /// the synthetic TLS completion mark into the machine, activating the
    /// TLS posture
    pub fn tls_active(&mut self)
        requires
            old(self).fsm.wf(),
        ensures
            final(self).fsm.wf(),
            final(self).name@ == old(self).name@,
            final(self).auth_mechanisms@ == old(self).auth_mechanisms@,
            exists|o: Outcome|
                valid_outcome(old(self).fsm@, CmdModel::StartedTls, o) && step(
                    old(self).fsm@,
                    CmdModel::StartedTls,
                    o,
                ).0 == final(self).fsm@,
    {
        let _ = self.fsm.command(&mut self.handler, crate::cmd::Cmd::StartedTls);
    }

    /// The coarse name of the machine's current phase
    pub fn state(&self) -> (t: SmtpState)
        ensures
            t == state_tag(self.fsm@.phase),
    {
        self.fsm.current_state()
    }
}

} // verus!
