use mailin::cmd::Cmd;
use mailin::parser::{parse, parse_auth_response};

#[test]
fn auth_initial_plain() {
    let res = parse(b"auth plain dGVzdAB0ZXN0ADEyMzQ=\r\n");
    match res {
        Ok(Cmd::AuthPlain { authorization_id, authentication_id, password }) => {
            assert_eq!(authorization_id, b"test".to_vec());
            assert_eq!(authentication_id, b"test".to_vec());
            assert_eq!(password, b"1234".to_vec());
        }
        _ => panic!("Auth plain with initial response incorrectly parsed"),
    };
}

#[test]
fn auth_initial_login() {
    let res = parse(b"auth login ZHVtbXk=\r\n");
    match res {
        Ok(Cmd::AuthLogin { username }) => {
            assert_eq!(username, b"dummy".to_vec());
        }
        _ => panic!("Auth login with initial response incorrectly parsed"),
    };
}

#[test]
fn auth_empty_plain() {
    let res = parse(b"auth plain\r\n");
    match res {
        Ok(Cmd::AuthPlainEmpty) => {}
        _ => panic!("Auth plain without initial response incorrectly parsed"),
    };
}

#[test]
fn auth_empty_login() {
    let res = parse(b"auth login\r\n");
    match res {
        Ok(Cmd::AuthLoginEmpty) => {}
        _ => panic!("Auth login without initial response incorrectly parsed"),
    };
}

#[test]
fn helo_lower_and_upper_case() {
    match parse(b"HELO a.domain\r\n") {
        Ok(Cmd::Helo { domain }) => assert_eq!(domain, b"a.domain".to_vec()),
        _ => panic!("HELO incorrectly parsed"),
    }
    match parse(b"helo b.domain\r\n") {
        Ok(Cmd::Helo { domain }) => assert_eq!(domain, b"b.domain".to_vec()),
        _ => panic!("helo incorrectly parsed"),
    }
}

#[test]
fn ehlo_domain() {
    match parse(b"EHLO x\r\n") {
        Ok(Cmd::Ehlo { domain }) => assert_eq!(domain, b"x".to_vec()),
        _ => panic!("EHLO incorrectly parsed"),
    }
}

#[test]
fn mail_from_plain() {
    match parse(b"MAIL FROM:<ship@sea.com>\r\n") {
        Ok(Cmd::Mail { reverse_path, is8bit }) => {
            assert_eq!(reverse_path, b"ship@sea.com".to_vec());
            assert!(!is8bit);
        }
        _ => panic!("MAIL FROM incorrectly parsed"),
    }
}

#[test]
fn mail_from_bounce_and_space() {
    // an empty reverse path marks a bounce message
    match parse(b"MAIL FROM:<>\r\n") {
        Ok(Cmd::Mail { reverse_path, is8bit }) => {
            assert_eq!(reverse_path, b"".to_vec());
            assert!(!is8bit);
        }
        _ => panic!("bounce MAIL FROM incorrectly parsed"),
    }
    // one space after the colon is tolerated
    match parse(b"MAIL FROM: <a@b>\r\n") {
        Ok(Cmd::Mail { reverse_path, .. }) => assert_eq!(reverse_path, b"a@b".to_vec()),
        _ => panic!("MAIL FROM with space incorrectly parsed"),
    }
}

#[test]
fn mail_from_eight_bit() {
    match parse(b"MAIL FROM:<a@b> BODY=8BITMIME\r\n") {
        Ok(Cmd::Mail { is8bit, .. }) => assert!(is8bit),
        _ => panic!("BODY=8BITMIME incorrectly parsed"),
    }
    match parse(b"MAIL FROM:<a@b> BODY=7BIT\r\n") {
        Ok(Cmd::Mail { is8bit, .. }) => assert!(!is8bit),
        _ => panic!("BODY=7BIT incorrectly parsed"),
    }
}

#[test]
fn rcpt_to_path() {
    match parse(b"RCPT TO:<fish@sea.com>\r\n") {
        Ok(Cmd::Rcpt { forward_path }) => assert_eq!(forward_path, b"fish@sea.com".to_vec()),
        _ => panic!("RCPT TO incorrectly parsed"),
    }
}

#[test]
fn bare_verbs() {
    assert!(matches!(parse(b"DATA\r\n"), Ok(Cmd::Data)));
    assert!(matches!(parse(b"RSET\r\n"), Ok(Cmd::Rset)));
    assert!(matches!(parse(b"NOOP\r\n"), Ok(Cmd::Noop)));
    assert!(matches!(parse(b"QUIT\r\n"), Ok(Cmd::Quit)));
    assert!(matches!(parse(b"STARTTLS\r\n"), Ok(Cmd::StartTls)));
    assert!(matches!(parse(b"VRFY someone\r\n"), Ok(Cmd::Vrfy)));
}

#[test]
fn missing_parameter_is_502() {
    match parse(b"HELO\r\n") {
        Err(r) => assert_eq!(r.code, 502),
        _ => panic!("HELO without a domain must be refused"),
    }
    match parse(b"MAIL\r\n") {
        Err(r) => assert_eq!(r.code, 502),
        _ => panic!("MAIL without arguments must be refused"),
    }
}

#[test]
fn syntax_error_is_500() {
    match parse(b"helo world\x40\xff\r\n") {
        Err(r) => assert_eq!(r.code, 500),
        _ => panic!("a domain with a byte outside printable ASCII must be refused"),
    }
    match parse(b"GROW a.domain\r\n") {
        Err(r) => assert_eq!(r.code, 500),
        _ => panic!("an unknown verb must be refused"),
    }
    match parse(b"MAIL FROM:<a@b> BODY=9BIT\r\n") {
        Err(r) => assert_eq!(r.code, 500),
        _ => panic!("an unknown BODY value must be refused"),
    }
}

#[test]
fn auth_response_line() {
    match parse_auth_response(b"dGVzdAB0ZXN0ADEyMzQ=\r\n") {
        Ok(bytes) => assert_eq!(bytes, b"dGVzdAB0ZXN0ADEyMzQ=".to_vec()),
        _ => panic!("a base64 continuation line must be accepted"),
    }
    match parse_auth_response(b"not base64!\r\n") {
        Err(r) => assert_eq!(r.code, 500),
        _ => panic!("a non-base64 continuation line must be refused"),
    }
}
