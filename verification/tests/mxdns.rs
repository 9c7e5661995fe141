use mailin::ip::IpAddress;
use mailin::mxdns::{Error, FCrDNS, MxDns, byte_to_nibbles, parse_tlv_name, reverse_dns_query,
    reverse_ip};

#[test]
fn reverse_ip_v4() {
    let ip = IpAddress::V4(116, 203, 10, 186);
    assert_eq!(reverse_ip(&ip), b"186.10.203.116".to_vec());
    assert_eq!(
        reverse_dns_query(&ip),
        b"186.10.203.116.in-addr.arpa".to_vec()
    );
}

#[test]
fn reverse_ip_v6() {
    // 2001:4860:4860::8888
    let octets: [u8; 16] = [
        0x20, 0x01, 0x48, 0x60, 0x48, 0x60, 0x00, 0x00, 0x00, 0x00, 0x00, 0x00, 0x00, 0x00, 0x88,
        0x88,
    ];
    let ip = IpAddress::V6(octets);
    assert_eq!(
        reverse_ip(&ip),
        b"8.8.8.8.0.0.0.0.0.0.0.0.0.0.0.0.0.0.0.0.0.6.8.4.0.6.8.4.1.0.0.2".to_vec()
    );
    let mut expected = b"8.8.8.8.0.0.0.0.0.0.0.0.0.0.0.0.0.0.0.0.0.6.8.4.0.6.8.4.1.0.0.2".to_vec();
    expected.extend_from_slice(b".ip6.arpa");
    assert_eq!(reverse_dns_query(&ip), expected);
}

#[test]
fn nibbles() {
    assert_eq!(byte_to_nibbles(0xab), vec![0x0a, 0x0b]);
    assert_eq!(byte_to_nibbles(0x07), vec![0x00, 0x07]);
}

#[test]
fn tlv_name_decoding() {
    // 4mail12alienscience3org0
    let raw: &[u8] = &[
        4, b'm', b'a', b'i', b'l', 12, b'a', b'l', b'i', b'e', b'n', b's', b'c', b'i', b'e', b'n',
        b'c', b'e', 3, b'o', b'r', b'g', 0,
    ];
    assert_eq!(parse_tlv_name(raw), b"mail.alienscience.org".to_vec());
    assert_eq!(parse_tlv_name(&[0]), Vec::<u8>::new());
}

fn mxdns() -> MxDns {
    MxDns::with_dns(
        IpAddress::V4(8, 8, 8, 8),
        vec![b"zen.spamhaus.org".to_vec(), b"bl.spamcop.net".to_vec()],
    )
}

#[test]
fn blocklist_query_name() {
    let m = mxdns();
    let q = m.blocklist_query(0, &IpAddress::V4(127, 0, 0, 2));
    assert_eq!(q, b"2.0.0.127.zen.spamhaus.org".to_vec());
}

#[test]
fn empty_blocklists() {
    let m = MxDns::with_dns(IpAddress::V4(8, 8, 8, 8), Vec::new());
    let blocked = m.is_blocked(Vec::new()).unwrap();
    assert_eq!(blocked, false);
}

#[test]
fn blocked_when_any_list_answers() {
    let m = mxdns();
    let results = vec![Err(Error::Recv(b"q".to_vec())), Ok(true)];
    assert_eq!(m.is_blocked(results).unwrap(), true);
}

#[test]
fn not_blocked_when_no_list_answers_positively() {
    let m = mxdns();
    let results: Vec<Result<bool, Error>> = vec![Err(Error::Recv(b"q".to_vec())), Ok(false)];
    assert_eq!(m.is_blocked(results).unwrap(), false);
}

#[test]
fn error_when_every_list_fails() {
    let m = mxdns();
    let results: Vec<Result<bool, Error>> = vec![
        Err(Error::Recv(b"a".to_vec())),
        Err(Error::EmptyResponse(b"b".to_vec())),
    ];
    assert!(m.is_blocked(results).is_err());
}

#[test]
fn fcrdns_verdicts() {
    let m = mxdns();
    let ip = IpAddress::V4(116, 203, 10, 186);
    let verdict = m.fcrdns(&ip, None, &Vec::new());
    assert!(matches!(verdict, FCrDNS::NoReverse));
    assert!(!verdict.is_confirmed());
    let verdict = m.fcrdns(
        &ip,
        Some(b"mail.alienscience.org".to_vec()),
        &vec![IpAddress::V4(1, 2, 3, 4), IpAddress::V4(116, 203, 10, 186)],
    );
    match &verdict {
        FCrDNS::Confirmed(name) => assert_eq!(name, &b"mail.alienscience.org".to_vec()),
        _ => panic!("a forward answer holding the address must confirm"),
    }
    assert!(verdict.is_confirmed());
    let verdict = m.fcrdns(
        &ip,
        Some(b"mail.alienscience.org".to_vec()),
        &vec![IpAddress::V4(1, 2, 3, 4)],
    );
    assert!(matches!(verdict, FCrDNS::UnConfirmed(_)));
}
