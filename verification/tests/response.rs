use mailin::response::{Action, Response};

fn wire(r: &Response) -> Vec<u8> {
    let mut out = Vec::new();
    r.write_to(&mut out);
    out
}

#[test]
fn fixed_single_line() {
    let r = Response::ok();
    assert_eq!(r.code, 250);
    assert!(!r.is_error);
    assert_eq!(r.action, Action::Reply);
    assert_eq!(wire(&r), b"250 OK\r\n".to_vec());
}

#[test]
fn closing_codes_close() {
    let r = Response::goodbye();
    assert_eq!(r.code, 221);
    assert_eq!(r.action, Action::Close);
    assert_eq!(wire(&r), b"221 Goodbye\r\n".to_vec());
    let r = Response::fixed(421, "Service not available, closing connection");
    assert_eq!(r.action, Action::Close);
    assert!(r.is_error);
}

#[test]
fn error_flag_follows_code() {
    assert!(Response::fixed(500, "Syntax error").is_error);
    assert!(Response::fixed(554, "Transaction failed").is_error);
    assert!(!Response::fixed(250, "OK").is_error);
    assert!(!Response::fixed(354, "Go ahead").is_error);
}

#[test]
fn empty_response_writes_nothing() {
    let r = Response::empty();
    assert_eq!(r.action, Action::NoReply);
    assert_eq!(wire(&r), Vec::<u8>::new());
}

#[test]
fn dynamic_multiline_wire_form() {
    let r = Response::dynamic(250, "head".to_string(), vec!["FIRST", "SECOND"]);
    assert_eq!(wire(&r), b"250-head\r\n250-FIRST\r\n250 SECOND\r\n".to_vec());
    let r = Response::dynamic(220, "alone".to_string(), Vec::new());
    assert_eq!(wire(&r), b"220 alone\r\n".to_vec());
}

#[test]
fn start_data_prompt() {
    let r = Response::start_data();
    assert_eq!(r.code, 354);
    assert_eq!(
        wire(&r),
        b"354 Start mail input; end with <CRLF>.<CRLF>\r\n".to_vec()
    );
}
