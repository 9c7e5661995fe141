//! The response value returned for every processed command: a numeric code,
//! single- or multi-line text, an error flag, and the action the embedder
//! should take after sending the response.

use vstd::prelude::*;

verus! {

use vstd::string::StringSliceAdditionalSpecFns;

/// Action indicates the recommended action to take on a response
#[derive(PartialEq, Eq, Structural, Clone, Copy, Debug)]
pub enum Action {
    /// Send the response and close the connection
    Close,
    /// Upgrade the connection to use TLS
    UpgradeTls,
    /// Do not reply, wait for the client to send more data
    NoReply,
    /// Send a reply and keep the connection open
    Reply,
}

/// The text carried by a response
#[derive(Clone, Debug)]
pub enum Message {
    /// A head line followed by further lines, serialized as a multi-line reply
    Dynamic(String, Vec<&'static str>),
    /// A single fixed line
    Fixed(&'static str),
    /// No text at all: nothing is written to the client
    Empty,
}

/// Response contains a code and message to be sent back to the client
#[derive(Clone, Debug)]
pub struct Response {
    /// The three digit response code
    pub code: u16,
    /// The text of the response
    pub message: Message,
    /// Is the response an error response?
    pub is_error: bool,
    /// The action to take after sending the response to the client
    pub action: Action,
}

/// The mathematical model of a response: the code, the text of each reply
/// line (without code prefix or line terminator), the error flag and action.
pub struct ResponseModel {
    pub code: u16,
    pub lines: Seq<Seq<u8>>,
    pub is_error: bool,
    pub action: Action,
}

impl Message {
    /// The text lines carried by this message, as byte sequences
    pub open spec fn lines(&self) -> Seq<Seq<u8>> {
        match self {
            Message::Dynamic(head, tail) => seq![vstd::utf8::encode_utf8(head@)] + tail@.map_values(
                |t: &'static str| t.spec_bytes(),
            ),
            Message::Fixed(s) => seq![s.spec_bytes()],
            Message::Empty => seq![],
        }
    }
}

impl View for Response {
    type V = ResponseModel;

    open spec fn view(&self) -> ResponseModel {
        ResponseModel {
            code: self.code,
            lines: self.message.lines(),
            is_error: self.is_error,
            action: self.action,
        }
    }
}

/// The two-byte line terminator used on the wire
pub open spec fn crlf() -> Seq<u8> {
    seq![13u8, 10u8]
}

/// The three ASCII digits of a response code
pub open spec fn code_digits(code: u16) -> Seq<u8> {
    seq![(0x30 + code / 100 % 10) as u8, (0x30 + code / 10 % 10) as u8, (0x30 + code % 10) as u8]
}

/// One serialized reply line: `code-text\r\n`, or `code text\r\n` for the
/// last line of a reply
pub open spec fn wire_line(code: u16, text: Seq<u8>, last: bool) -> Seq<u8> {
    code_digits(code) + seq![if last { 32u8 } else { 45u8 }] + text + crlf()
}

/// The serialized reply lines from index `i` on
pub open spec fn wire_lines_from(code: u16, lines: Seq<Seq<u8>>, i: int) -> Seq<u8>
    decreases lines.len() - i,
{
    if i < 0 || i >= lines.len() {
        Seq::empty()
    } else {
        wire_line(code, lines[i], i == lines.len() - 1) + wire_lines_from(code, lines, i + 1)
    }
}

impl ResponseModel {
    /// The canonical ESMTP wire form of the whole response
    pub open spec fn wire_form(self) -> Seq<u8> {
        wire_lines_from(self.code, self.lines, 0)
    }
}

impl Response {
    /// A response with the given fields
    pub fn constant(code: u16, message: &'static str, is_error: bool, action: Action) -> (r:
        Response)
        ensures
            r@ == (ResponseModel {
                code,
                lines: seq![message.spec_bytes()],
                is_error,
                action,
            }),
    {
        Response { code, message: Message::Fixed(message), is_error, action }
    }

    /// An empty response: nothing is sent, the session waits for more input
    pub fn empty() -> (r: Response)
        ensures
            r@ == empty_model(),
    {
        Response { code: 0, message: Message::Empty, is_error: false, action: Action::NoReply }
    }

    /// A single fixed line; the action is derived from the code: 221 and 421
    /// close the session, everything else is a plain reply
    pub fn fixed(code: u16, message: &'static str) -> (r: Response)
        ensures
            r@ == (ResponseModel {
                code,
                lines: seq![message.spec_bytes()],
                is_error: code < 200 || code >= 400,
                action: if code == 221 || code == 421 {
                    Action::Close
                } else {
                    Action::Reply
                },
            }),
    {
        let action = if code == 221 || code == 421 {
            Action::Close
        } else {
            Action::Reply
        };
        Self::fixed_action(code, message, action)
    }

    /// A single fixed line with the given action
    pub fn fixed_action(code: u16, message: &'static str, action: Action) -> (r: Response)
        ensures
            r@ == (ResponseModel {
                code,
                lines: seq![message.spec_bytes()],
                is_error: code < 200 || code >= 400,
                action,
            }),
    {
        let is_error = code < 200 || code >= 400;
        Response { code, message: Message::Fixed(message), is_error, action }
    }

    /// The placeholder for a successful EHLO; the session facade replaces it
    /// with a multi-line reply listing the advertised extensions
    pub fn ehlo_ok() -> (r: Response)
        ensures
            r@ == (ResponseModel {
                code: 250,
                lines: seq!["".spec_bytes()],
                is_error: false,
                action: Action::Reply,
            }),
    {
        Response {
            code: 250,
            message: Message::Fixed(""),
            is_error: false,
            action: Action::Reply,
        }
    }

    /// A response that is built dynamically and can be a multiline response
    pub fn dynamic(code: u16, head: String, tail: Vec<&'static str>) -> (r: Response)
        ensures
            r@ == (ResponseModel {
                code,
                lines: seq![vstd::utf8::encode_utf8(head@)] + tail@.map_values(
                    |t: &'static str| t.spec_bytes(),
                ),
                is_error: false,
                action: Action::Reply,
            }),
    {
        Response { code, message: Message::Dynamic(head, tail), is_error: false, action: Action::Reply }
    }

    /// Write the canonical wire form of the response to the given byte sink
    pub fn write_to(&self, out: &mut Vec<u8>)
        ensures
            final(out)@ == old(out)@ + self@.wire_form(),
    {
        match &self.message {
            Message::Fixed(s) => {
                write_wire_line(out, self.code, s, true);
                proof {
                    assert(wire_lines_from(self.code, self@.lines, 1) =~= Seq::<u8>::empty());
                }
                assert(out@ =~= old(out)@ + self@.wire_form());
            },
            Message::Dynamic(head, tail) => {
                let ghost lines = self@.lines;
                if tail.len() == 0 {
                    write_wire_line(out, self.code, head.as_str(), true);
                } else {
                    write_wire_line(out, self.code, head.as_str(), false);
                    let mut i: usize = 0;
                    while i < tail.len()
                        invariant
                            i <= tail.len(),
                            lines == seq![vstd::utf8::encode_utf8(head@)] + tail@.map_values(
                                |t: &'static str| t.spec_bytes(),
                            ),
                            lines.len() == tail@.len() + 1,
                            out@ + wire_lines_from(self.code, lines, i + 1 as int) == old(out)@
                                + wire_lines_from(self.code, lines, 0),
                        decreases tail.len() - i,
                    {
                        let last = i == tail.len() - 1;
                        write_wire_line(out, self.code, tail[i], last);
                        i = i + 1;
                    }
                }
                proof {
                    assert(wire_lines_from(self.code, lines, lines.len() as int) =~= Seq::<
                        u8,
                    >::empty());
                }
                assert(out@ =~= old(out)@ + self@.wire_form());
            },
            Message::Empty => {
                assert(self@.wire_form() =~= Seq::<u8>::empty());
                assert(out@ =~= old(out)@ + self@.wire_form());
            },
        }
    }
}

/// The model of the empty response
pub open spec fn empty_model() -> ResponseModel {
    ResponseModel { code: 0, lines: seq![], is_error: false, action: Action::NoReply }
}

/// The model of a single-line response
pub open spec fn fixed_model(code: u16, text: &'static str, is_error: bool, action: Action)
    -> ResponseModel {
    ResponseModel { code, lines: seq![text.spec_bytes()], is_error, action }
}

pub open spec fn missing_parameter_model() -> ResponseModel {
    fixed_model(502, "Missing parameter", true, Action::Reply)
}

pub open spec fn syntax_error_model() -> ResponseModel {
    fixed_model(500, "Syntax error", true, Action::Reply)
}

pub open spec fn start_tls_model() -> ResponseModel {
    fixed_model(220, "Ready to start TLS", false, Action::UpgradeTls)
}

pub open spec fn goodbye_model() -> ResponseModel {
    fixed_model(221, "Goodbye", false, Action::Close)
}

pub open spec fn ok_model() -> ResponseModel {
    fixed_model(250, "OK", false, Action::Reply)
}

pub open spec fn verify_model() -> ResponseModel {
    fixed_model(252, "Maybe", false, Action::Reply)
}

pub open spec fn auth_challenge_model() -> ResponseModel {
    fixed_model(334, "", false, Action::Reply)
}

pub open spec fn start_data_model() -> ResponseModel {
    fixed_model(354, "Start mail input; end with <CRLF>.<CRLF>", false, Action::Reply)
}

pub open spec fn invalid_state_model() -> ResponseModel {
    fixed_model(421, "Internal service error, closing connection", true, Action::Close)
}

pub open spec fn no_service_model() -> ResponseModel {
    fixed_model(421, "Service not available, closing connection", true, Action::Close)
}

pub open spec fn internal_error_model() -> ResponseModel {
    fixed_model(451, "Internal error", true, Action::Reply)
}

pub open spec fn no_storage_model() -> ResponseModel {
    fixed_model(452, "Insufficient storage", true, Action::Reply)
}

pub open spec fn temporary_auth_failure_model() -> ResponseModel {
    fixed_model(454, "Temporary authentication failure", true, Action::Reply)
}

pub open spec fn bad_sequence_model() -> ResponseModel {
    fixed_model(503, "Bad sequence of commands", true, Action::Reply)
}

pub open spec fn authentication_required_model() -> ResponseModel {
    fixed_model(530, "Authentication required", true, Action::Reply)
}

pub open spec fn invalid_credentials_model() -> ResponseModel {
    fixed_model(535, "Invalid credentials", true, Action::Reply)
}

pub open spec fn authentication_ok_model() -> ResponseModel {
    fixed_model(235, "Authentication succeeded", false, Action::Reply)
}

pub open spec fn bad_hello_model() -> ResponseModel {
    fixed_model(550, "Bad HELO", true, Action::Reply)
}

pub open spec fn blocked_ip_model() -> ResponseModel {
    fixed_model(550, "IP address blocked", true, Action::Reply)
}

pub open spec fn no_mailbox_model() -> ResponseModel {
    fixed_model(550, "Mailbox unavailable", true, Action::Reply)
}

pub open spec fn out_of_space_model() -> ResponseModel {
    fixed_model(552, "Exceeded storage allocation", true, Action::Reply)
}

pub open spec fn bad_mailbox_model() -> ResponseModel {
    fixed_model(553, "Mailbox name invalid", true, Action::Reply)
}

pub open spec fn transaction_failed_model() -> ResponseModel {
    fixed_model(554, "Transaction failed", true, Action::Reply)
}

impl Response {
    /// 502, a recognised verb misses a required parameter
    pub fn missing_parameter() -> (r: Response)
        ensures
            r@ == missing_parameter_model(),
    {
        Response::constant(502, "Missing parameter", true, Action::Reply)
    }

    /// 500, the line could not be parsed
    pub fn syntax_error() -> (r: Response)
        ensures
            r@ == syntax_error_model(),
    {
        Response::constant(500, "Syntax error", true, Action::Reply)
    }

    /// 220, STARTTLS was accepted: the embedder performs the handshake
    pub fn start_tls() -> (r: Response)
        ensures
            r@ == start_tls_model(),
    {
        Response::constant(220, "Ready to start TLS", false, Action::UpgradeTls)
    }

    /// 221, the reply to QUIT; the session closes
    pub fn goodbye() -> (r: Response)
        ensures
            r@ == goodbye_model(),
    {
        Response::constant(221, "Goodbye", false, Action::Close)
    }

    /// 250, the command was accepted
    pub fn ok() -> (r: Response)
        ensures
            r@ == ok_model(),
    {
        Response::constant(250, "OK", false, Action::Reply)
    }

    /// 252, the reply to VRFY: nothing is verified
    pub fn verify_response() -> (r: Response)
        ensures
            r@ == verify_model(),
    {
        Response::constant(252, "Maybe", false, Action::Reply)
    }

    /// 334, an empty authentication challenge
    pub fn auth_challenge() -> (r: Response)
        ensures
            r@ == auth_challenge_model(),
    {
        Response::constant(334, "", false, Action::Reply)
    }

    /// 354, the prompt to send the message body
    pub fn start_data() -> (r: Response)
        ensures
            r@ == start_data_model(),
    {
        Response::constant(354, "Start mail input; end with <CRLF>.<CRLF>", false, Action::Reply)
    }

    /// 421, the session is in no state to continue and closes
    pub fn invalid_state() -> (r: Response)
        ensures
            r@ == invalid_state_model(),
    {
        Response::constant(421, "Internal service error, closing connection", true, Action::Close)
    }

    /// 421, service not available; the session closes
    pub fn no_service() -> (r: Response)
        ensures
            r@ == no_service_model(),
    {
        Response::constant(421, "Service not available, closing connection", true, Action::Close)
    }

    /// 451, a transient server-side error
    pub fn internal_error() -> (r: Response)
        ensures
            r@ == internal_error_model(),
    {
        Response::constant(451, "Internal error", true, Action::Reply)
    }

    /// 452, the server is out of storage for this request
    pub fn no_storage() -> (r: Response)
        ensures
            r@ == no_storage_model(),
    {
        Response::constant(452, "Insufficient storage", true, Action::Reply)
    }

    /// 454, authentication failed transiently; the client may retry
    pub fn temporary_auth_failure() -> (r: Response)
        ensures
            r@ == temporary_auth_failure_model(),
    {
        Response::constant(454, "Temporary authentication failure", true, Action::Reply)
    }

    /// 503, the verb is legal but not in this phase
    pub fn bad_sequence() -> (r: Response)
        ensures
            r@ == bad_sequence_model(),
    {
        Response::constant(503, "Bad sequence of commands", true, Action::Reply)
    }

    /// 530, the client must authenticate first
    pub fn authentication_required() -> (r: Response)
        ensures
            r@ == authentication_required_model(),
    {
        Response::constant(530, "Authentication required", true, Action::Reply)
    }

    /// 535, the presented credentials were rejected
    pub fn invalid_credentials() -> (r: Response)
        ensures
            r@ == invalid_credentials_model(),
    {
        Response::constant(535, "Invalid credentials", true, Action::Reply)
    }

    /// 235, authentication succeeded
    pub fn authentication_ok() -> (r: Response)
        ensures
            r@ == authentication_ok_model(),
    {
        Response::constant(235, "Authentication succeeded", false, Action::Reply)
    }

    /// 550, the HELO domain was rejected
    pub fn bad_hello() -> (r: Response)
        ensures
            r@ == bad_hello_model(),
    {
        Response::constant(550, "Bad HELO", true, Action::Reply)
    }

    /// 550, the client address is on a blocklist
    pub fn blocked_ip() -> (r: Response)
        ensures
            r@ == blocked_ip_model(),
    {
        Response::constant(550, "IP address blocked", true, Action::Reply)
    }

    /// 550, the recipient mailbox does not exist
    pub fn no_mailbox() -> (r: Response)
        ensures
            r@ == no_mailbox_model(),
    {
        Response::constant(550, "Mailbox unavailable", true, Action::Reply)
    }

    /// 552, the message exceeds the storage allocation
    pub fn out_of_space() -> (r: Response)
        ensures
            r@ == out_of_space_model(),
    {
        Response::constant(552, "Exceeded storage allocation", true, Action::Reply)
    }

    /// 553, the mailbox name is not allowed
    pub fn bad_mailbox() -> (r: Response)
        ensures
            r@ == bad_mailbox_model(),
    {
        Response::constant(553, "Mailbox name invalid", true, Action::Reply)
    }

    /// 554, the message was received but could not be committed
    pub fn transaction_failed() -> (r: Response)
        ensures
            r@ == transaction_failed_model(),
    {
        Response::constant(554, "Transaction failed", true, Action::Reply)
    }
}

/// A byte string free of CR and LF
pub open spec fn crlf_free(s: Seq<u8>) -> bool {
    forall|i: int| 0 <= i < s.len() ==> s[i] != 13 && s[i] != 10
}

/// The number of LF bytes in `s`
pub open spec fn lf_count(s: Seq<u8>) -> int
    decreases s.len(),
{
    if s.len() == 0 {
        0
    } else {
        lf_count(s.drop_last()) + if s.last() == 10 {
            1int
        } else {
            0int
        }
    }
}

/// Every LF in `s` directly follows a CR
pub open spec fn crlf_paired(s: Seq<u8>) -> bool {
    forall|i: int| 0 <= i < s.len() && #[trigger] s[i] == 10 ==> i > 0 && s[i - 1] == 13
}

/// LF counts add up over concatenation
proof fn lemma_lf_count_concat(a: Seq<u8>, b: Seq<u8>)
    ensures
        lf_count(a + b) == lf_count(a) + lf_count(b),
    decreases b.len(),
{
    if b.len() == 0 {
        assert(a + b =~= a);
    } else {
        lemma_lf_count_concat(a, b.drop_last());
        assert((a + b).drop_last() =~= a + b.drop_last());
        assert((a + b).last() == b.last());
    }
}

/// Pairing of CR before LF survives concatenation when the second part
/// does not begin with a bare LF
proof fn lemma_crlf_paired_concat(a: Seq<u8>, b: Seq<u8>)
    requires
        crlf_paired(a),
        crlf_paired(b),
        b.len() > 0 ==> b[0] != 10,
    ensures
        crlf_paired(a + b),
{
    assert forall|i: int| 0 <= i < (a + b).len() && #[trigger] (a + b)[i] == 10 implies i > 0 && (
    a + b)[i - 1] == 13 by {
        if i < a.len() {
            assert(a[i] == 10);
        } else {
            assert(b[i - a.len()] == 10);
            assert(i - a.len() > 0);
            assert(b[i - a.len() - 1] == 13);
        }
    }
}

/// One serialized reply line holds exactly one LF, at its end, after a CR
proof fn lemma_wire_line_framed(code: u16, text: Seq<u8>, last: bool)
    requires
        crlf_free(text),
    ensures
        lf_count(wire_line(code, text, last)) == 1,
        crlf_paired(wire_line(code, text, last)),
        wire_line(code, text, last).len() >= 6,
        wire_line(code, text, last)[0] != 10,
        wire_line(code, text, last).last() == 10,
        wire_line(code, text, last)[wire_line(code, text, last).len() - 2] == 13,
{
    let w = wire_line(code, text, last);
    assert(w.drop_last().last() == 13);
    assert forall|i: int| 0 <= i < w.drop_last().len() implies w.drop_last()[i] != 10 by {
        if i >= 4 && i < 4 + text.len() {
            assert(w.drop_last()[i] == text[i - 4]);
        }
    }
    assert(lf_count(w.drop_last()) == 0) by {
        lemma_lf_count_no_lf(w.drop_last());
    }
}

/// A string without LF has LF count zero
proof fn lemma_lf_count_no_lf(s: Seq<u8>)
    requires
        forall|i: int| 0 <= i < s.len() ==> s[i] != 10,
    ensures
        lf_count(s) == 0,
    decreases s.len(),
{
    if s.len() > 0 {
        lemma_lf_count_no_lf(s.drop_last());
    }
}

/// The reply lines from `i` on are CRLF-framed
proof fn lemma_wire_lines_framed(code: u16, lines: Seq<Seq<u8>>, i: int)
    requires
        0 <= i <= lines.len(),
        forall|j: int| 0 <= j < lines.len() ==> crlf_free(#[trigger] lines[j]),
    ensures
        lf_count(wire_lines_from(code, lines, i)) == lines.len() - i,
        crlf_paired(wire_lines_from(code, lines, i)),
        i < lines.len() ==> wire_lines_from(code, lines, i).len() >= 2 && wire_lines_from(
            code,
            lines,
            i,
        )[0] != 10 && wire_lines_from(code, lines, i).last() == 10 && wire_lines_from(
            code,
            lines,
            i,
        )[wire_lines_from(code, lines, i).len() - 2] == 13,
    decreases lines.len() - i,
{
    if i < lines.len() {
        let w = wire_line(code, lines[i], i == lines.len() - 1);
        let rest = wire_lines_from(code, lines, i + 1);
        lemma_wire_line_framed(code, lines[i], i == lines.len() - 1);
        lemma_wire_lines_framed(code, lines, i + 1);
        lemma_lf_count_concat(w, rest);
        lemma_crlf_paired_concat(w, rest);
        if i + 1 < lines.len() {
            assert((w + rest).last() == rest.last());
            assert((w + rest)[(w + rest).len() - 2] == rest[rest.len() - 2]);
        } else {
            assert(w + rest =~= w);
        }
    }
}

/// Every serialized response is CRLF-framed: provided no reply text holds
/// a CR or LF of its own, the wire form carries exactly one LF per reply
/// line, every LF directly follows a CR, and a non-empty response ends in
/// CRLF. The serializer appends a whole response at a time, so the
/// responses of one session follow each other on the wire without
/// interleaving.
pub proof fn lemma_wire_form_crlf_framed(m: ResponseModel)
    requires
        forall|j: int| 0 <= j < m.lines.len() ==> crlf_free(#[trigger] m.lines[j]),
    ensures
        lf_count(m.wire_form()) == m.lines.len(),
        crlf_paired(m.wire_form()),
        m.lines.len() > 0 ==> m.wire_form().len() >= 2 && m.wire_form().last() == 10
            && m.wire_form()[m.wire_form().len() - 2] == 13,
        m.lines.len() == 0 ==> m.wire_form() == Seq::<u8>::empty(),
{
    lemma_wire_lines_framed(m.code, m.lines, 0);
}

/// Append the bytes of one serialized reply line to `out`
fn write_wire_line(out: &mut Vec<u8>, code: u16, text: &str, last: bool)
    ensures
        final(out)@ == old(out)@ + wire_line(code, text.spec_bytes(), last),
{
    out.push((0x30 + code / 100 % 10) as u8);
    out.push((0x30 + code / 10 % 10) as u8);
    out.push((0x30 + code % 10) as u8);
    if last {
        out.push(32u8);
    } else {
        out.push(45u8);
    }
    out.extend_from_slice(text.as_bytes());
    out.push(13u8);
    out.push(10u8);
    assert(out@ =~= old(out)@ + wire_line(code, text.spec_bytes(), last));
}

} // verus!
