use std::cell::RefCell;
use std::rc::Rc;

use mailin::handler::{AuthResult, DataResult, Handler, RcptResult, Sink};
use mailin::ip::IpAddress;
use mailin::fsm::SmtpState;
use mailin::response::Action;
use mailin::session::{Session, SessionBuilder};

struct SharedSink {
    data: Rc<RefCell<Vec<u8>>>,
    fail: bool,
}

impl Sink for SharedSink {
    fn append(&mut self, line: &[u8]) -> bool {
        if self.fail {
            return false;
        }
        self.data.borrow_mut().extend_from_slice(line);
        true
    }
}

struct TestHandler {
    sink_data: Rc<RefCell<Vec<u8>>>,
    sink_fails: bool,
    rcpts: Rc<RefCell<Vec<Vec<u8>>>>,
}

impl TestHandler {
    fn new() -> (TestHandler, Rc<RefCell<Vec<u8>>>) {
        let data = Rc::new(RefCell::new(Vec::new()));
        let rcpts = Rc::new(RefCell::new(Vec::new()));
        (TestHandler { sink_data: data.clone(), sink_fails: false, rcpts }, data)
    }
}

impl Handler for TestHandler {
    type MessageSink = SharedSink;

    fn rcpt(&mut self, forward_path: &[u8]) -> RcptResult {
        self.rcpts.borrow_mut().push(forward_path.to_vec());
        RcptResult::Accepted
    }

    fn data(
        &mut self,
        _domain: &[u8],
        _reverse_path: &[u8],
        _is8bit: bool,
        _forward_paths: &Vec<Vec<u8>>,
    ) -> DataResult<SharedSink> {
        DataResult::Accepted(SharedSink { data: self.sink_data.clone(), fail: self.sink_fails })
    }

    fn auth_plain(
        &mut self,
        authorization_id: &[u8],
        authentication_id: &[u8],
        password: &[u8],
    ) -> AuthResult {
        if authorization_id == b"test" && authentication_id == b"test" && password == b"1234" {
            AuthResult::Accepted
        } else {
            AuthResult::InvalidCredentials
        }
    }
}

fn local() -> IpAddress {
    IpAddress::V4(127, 0, 0, 1)
}

fn new_session() -> Session<TestHandler> {
    let (handler, _) = TestHandler::new();
    SessionBuilder::new("some.name".to_string()).build(local(), handler)
}

fn wire(r: &mailin::response::Response) -> Vec<u8> {
    let mut out = Vec::new();
    r.write_to(&mut out);
    out
}

fn contains(haystack: &[u8], needle: &[u8]) -> bool {
    haystack.windows(needle.len()).any(|w| w == needle)
}

#[test]
fn session_helo_ehlo() {
    let mut session = new_session();
    let res = session.process(b"helo a.domain\r\n");
    assert_eq!(res.code, 250);
    assert_eq!(session.state(), SmtpState::Hello);
    let res = session.process(b"ehlo b.domain\r\n");
    assert_eq!(res.code, 250);
    assert_eq!(session.state(), SmtpState::Hello);
}

#[test]
fn mail_from() {
    let mut session = new_session();
    let res = session.process(b"helo a.domain\r\n");
    assert_eq!(res.code, 250);
    let res = session.process(b"mail from:<ship@sea.com>\r\n");
    assert_eq!(res.code, 250);
    assert_eq!(session.state(), SmtpState::Mail);
}

#[test]
fn domain_badchars() {
    let mut session = new_session();
    let res = session.process(b"helo world\x40\xff\r\n");
    assert_eq!(res.code, 500);
}

#[test]
fn happy_path() {
    let (handler, sink_data) = TestHandler::new();
    let mut session = SessionBuilder::new("some.name".to_string()).build(local(), handler);
    let greeting = session.greeting();
    assert_eq!(greeting.code, 220);
    assert_eq!(wire(&greeting), b"220 some.name ESMTP\r\n".to_vec());
    assert_eq!(session.process(b"HELO a.domain\r\n").code, 250);
    assert_eq!(session.process(b"MAIL FROM:<ship@sea.com>\r\n").code, 250);
    assert_eq!(session.process(b"RCPT TO:<fish@sea.com>\r\n").code, 250);
    assert_eq!(session.process(b"DATA\r\n").code, 354);
    let body = session.process(b"Hello World\r\n");
    assert_eq!(body.action, Action::NoReply);
    assert_eq!(wire(&body), Vec::<u8>::new());
    assert_eq!(session.process(b".\r\n").code, 250);
    let quit = session.process(b"QUIT\r\n");
    assert_eq!(quit.code, 221);
    assert_eq!(quit.action, Action::Close);
    assert_eq!(*sink_data.borrow(), b"Hello World\r\n".to_vec());
}

#[test]
fn no_output_after_close() {
    let mut session = new_session();
    let quit = session.process(b"QUIT\r\n");
    assert_eq!(quit.action, Action::Close);
    let after = session.process(b"HELO a.domain\r\n");
    assert_eq!(after.action, Action::NoReply);
    assert_eq!(wire(&after), Vec::<u8>::new());
}

#[test]
fn ehlo_advertises_extensions() {
    // STARTTLS is advertised before the upgrade, no mechanisms are
    let (handler, _) = TestHandler::new();
    let mut builder = SessionBuilder::new("b.domain".to_string());
    builder.enable_start_tls();
    builder.enable_auth(mailin::auth::AuthMechanism::Plain);
    let mut session = builder.build(local(), handler);
    let res = session.process(b"EHLO b.domain\r\n");
    assert_eq!(res.code, 250);
    let bytes = wire(&res);
    assert_eq!(
        bytes,
        b"250-b.domain\r\n250-8BITMIME\r\n250 STARTTLS\r\n".to_vec(),
    );
}

#[test]
fn ehlo_without_tls_or_auth() {
    let mut session = new_session();
    let res = session.process(b"EHLO b.domain\r\n");
    assert_eq!(wire(&res), b"250-some.name\r\n250 8BITMIME\r\n".to_vec());
}

#[test]
fn starttls_flow() {
    let (handler, _) = TestHandler::new();
    let mut builder = SessionBuilder::new("x".to_string());
    builder.enable_start_tls();
    builder.enable_auth(mailin::auth::AuthMechanism::Plain);
    let mut session = builder.build(local(), handler);
    let res = session.process(b"EHLO x\r\n");
    assert!(contains(&wire(&res), b"STARTTLS"));
    let res = session.process(b"STARTTLS\r\n");
    assert_eq!(res.code, 220);
    assert_eq!(res.action, Action::UpgradeTls);
    assert_eq!(wire(&res), b"220 Ready to start TLS\r\n".to_vec());
    session.tls_active();
    let res = session.process(b"EHLO x\r\n");
    let bytes = wire(&res);
    assert!(contains(&bytes, b"AUTH PLAIN"));
    assert!(!contains(&bytes, b"STARTTLS"));
}

#[test]
fn auth_plain_initial_response() {
    let (handler, _) = TestHandler::new();
    let mut builder = SessionBuilder::new("x".to_string());
    builder.enable_start_tls();
    builder.enable_auth(mailin::auth::AuthMechanism::Plain);
    let mut session = builder.build(local(), handler);
    assert_eq!(session.process(b"EHLO x\r\n").code, 250);
    assert_eq!(session.process(b"STARTTLS\r\n").code, 220);
    session.tls_active();
    assert_eq!(session.process(b"EHLO x\r\n").code, 250);
    // credentials the handler rejects: phase stays HelloAuth
    let res = session.process(b"AUTH PLAIN eGVzdAB0ZXN0ADEyMzQ=\r\n");
    assert_eq!(res.code, 535);
    assert_eq!(session.state(), SmtpState::HelloAuth);
    // credentials the handler accepts
    let res = session.process(b"AUTH PLAIN dGVzdAB0ZXN0ADEyMzQ=\r\n");
    assert_eq!(res.code, 235);
    assert_eq!(session.state(), SmtpState::Hello);
}

#[test]
fn auth_plain_challenge() {
    let (handler, _) = TestHandler::new();
    let mut builder = SessionBuilder::new("x".to_string());
    builder.enable_start_tls();
    builder.enable_auth(mailin::auth::AuthMechanism::Plain);
    let mut session = builder.build(local(), handler);
    assert_eq!(session.process(b"EHLO x\r\n").code, 250);
    assert_eq!(session.process(b"STARTTLS\r\n").code, 220);
    session.tls_active();
    assert_eq!(session.process(b"EHLO x\r\n").code, 250);
    let res = session.process(b"AUTH PLAIN\r\n");
    assert_eq!(res.code, 334);
    assert_eq!(session.state(), SmtpState::Auth);
    let res = session.process(b"dGVzdAB0ZXN0ADEyMzQ=\r\n");
    assert_eq!(res.code, 235);
    assert_eq!(session.state(), SmtpState::Hello);
}

#[test]
fn auth_gates_mail() {
    // while authentication is outstanding, MAIL is out of sequence
    let (handler, _) = TestHandler::new();
    let mut builder = SessionBuilder::new("x".to_string());
    builder.enable_start_tls();
    builder.enable_auth(mailin::auth::AuthMechanism::Plain);
    let mut session = builder.build(local(), handler);
    assert_eq!(session.process(b"EHLO x\r\n").code, 250);
    let res = session.process(b"MAIL FROM:<a@b>\r\n");
    assert_eq!(res.code, 503);
    // and AUTH PLAIN itself is refused before TLS is active
    let res = session.process(b"AUTH PLAIN dGVzdAB0ZXN0ADEyMzQ=\r\n");
    assert_eq!(res.code, 503);
}

#[test]
fn dot_stuffing() {
    let (handler, sink_data) = TestHandler::new();
    let mut session = SessionBuilder::new("some.name".to_string()).build(local(), handler);
    assert_eq!(session.process(b"HELO a.domain\r\n").code, 250);
    assert_eq!(session.process(b"MAIL FROM:<a@b>\r\n").code, 250);
    assert_eq!(session.process(b"RCPT TO:<c@d>\r\n").code, 250);
    assert_eq!(session.process(b"DATA\r\n").code, 354);
    assert_eq!(session.process(b"..a line\r\n").action, Action::NoReply);
    assert_eq!(session.process(b".\r\n").code, 250);
    assert_eq!(*sink_data.borrow(), b".a line\r\n".to_vec());
}

#[test]
fn sink_failure_is_554() {
    let (mut handler, sink_data) = TestHandler::new();
    handler.sink_fails = true;
    let mut session = SessionBuilder::new("some.name".to_string()).build(local(), handler);
    assert_eq!(session.process(b"HELO a.domain\r\n").code, 250);
    assert_eq!(session.process(b"MAIL FROM:<a@b>\r\n").code, 250);
    assert_eq!(session.process(b"RCPT TO:<c@d>\r\n").code, 250);
    assert_eq!(session.process(b"DATA\r\n").code, 354);
    assert_eq!(session.process(b"lost line\r\n").action, Action::NoReply);
    let res = session.process(b".\r\n");
    assert_eq!(res.code, 554);
    // the phase still returns to Hello: a new transaction may start
    assert_eq!(session.state(), SmtpState::Hello);
    assert_eq!(*sink_data.borrow(), Vec::<u8>::new());
}

#[test]
fn rset_returns_to_hello() {
    let (handler, rcpts) = {
        let (h, _) = TestHandler::new();
        let r = h.rcpts.clone();
        (h, r)
    };
    let mut session = SessionBuilder::new("some.name".to_string()).build(local(), handler);
    assert_eq!(session.process(b"HELO a.domain\r\n").code, 250);
    assert_eq!(session.process(b"MAIL FROM:<a@b>\r\n").code, 250);
    assert_eq!(session.process(b"RSET\r\n").code, 250);
    assert_eq!(session.state(), SmtpState::Hello);
    // a MAIL in the Mail phase is rejected as out of sequence
    assert_eq!(session.process(b"MAIL FROM:<a@b>\r\n").code, 250);
    assert_eq!(session.process(b"MAIL FROM:<x@y>\r\n").code, 503);
    // several recipients accumulate
    assert_eq!(session.process(b"RCPT TO:<one@d>\r\n").code, 250);
    assert_eq!(session.process(b"RCPT TO:<two@d>\r\n").code, 250);
    assert_eq!(rcpts.borrow().len(), 2);
}

#[test]
fn vrfy_is_252() {
    let mut session = new_session();
    assert_eq!(session.process(b"HELO a.domain\r\n").code, 250);
    assert_eq!(session.process(b"VRFY someone\r\n").code, 252);
}

#[test]
fn out_of_sequence_is_503() {
    let mut session = new_session();
    assert_eq!(session.process(b"RCPT TO:<a@b>\r\n").code, 503);
    assert_eq!(session.process(b"DATA\r\n").code, 503);
    assert_eq!(session.process(b"VRFY someone\r\n").code, 503);
    assert_eq!(session.process(b"STARTTLS\r\n").code, 503);
    assert_eq!(session.process(b"HELO a.domain\r\n").code, 250);
    assert_eq!(session.process(b"DATA\r\n").code, 503);
}

#[test]
fn noop_is_250_everywhere() {
    let mut session = new_session();
    assert_eq!(session.process(b"NOOP\r\n").code, 250);
    assert_eq!(session.process(b"HELO a.domain\r\n").code, 250);
    assert_eq!(session.process(b"NOOP\r\n").code, 250);
    assert_eq!(session.process(b"MAIL FROM:<a@b>\r\n").code, 250);
    assert_eq!(session.process(b"NOOP\r\n").code, 250);
    assert_eq!(session.state(), SmtpState::Mail);
}

#[test]
fn starttls_refused_without_tls() {
    // no TLS is configured, so STARTTLS is out of sequence even at Hello
    let mut session = new_session();
    assert_eq!(session.process(b"EHLO a.domain\r\n").code, 250);
    assert_eq!(session.process(b"STARTTLS\r\n").code, 503);
}

#[test]
fn ehlo_after_authentication_keeps_the_session_open() {
    let (handler, _) = TestHandler::new();
    let mut builder = SessionBuilder::new("x".to_string());
    builder.enable_start_tls();
    builder.enable_auth(mailin::auth::AuthMechanism::Plain);
    let mut session = builder.build(local(), handler);
    assert_eq!(session.process(b"EHLO x\r\n").code, 250);
    assert_eq!(session.process(b"STARTTLS\r\n").code, 220);
    session.tls_active();
    assert_eq!(session.process(b"EHLO x\r\n").code, 250);
    assert_eq!(session.process(b"AUTH PLAIN dGVzdAB0ZXN0ADEyMzQ=\r\n").code, 235);
    // a repeated EHLO resets the transaction but not the authentication
    assert_eq!(session.process(b"EHLO x\r\n").code, 250);
    assert_eq!(session.state(), SmtpState::Hello);
    assert_eq!(session.process(b"MAIL FROM:<a@b>\r\n").code, 250);
}
