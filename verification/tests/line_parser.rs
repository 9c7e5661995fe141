use mailin::mime::header::{find_param, Header};
use mailin::mime::line_parser::header;

#[test]
fn unstructured_header() {
    let tok = header(b"X-sender: <sender@sendersdomain.com>\r\n").unwrap();
    assert_eq!(
        tok,
        Header::Unstructured(b"X-sender".to_vec(), b"<sender@sendersdomain.com>".to_vec())
    )
}

#[test]
fn end_header() {
    let tok = header(b"\r\n").unwrap();
    assert_eq!(tok, Header::End)
}

#[test]
fn case_insensitive_header() {
    let tok = header(b"Message-Id: <20191004173832.005460@fish.localdomain>\r\n").unwrap();
    assert_eq!(
        tok,
        Header::MessageId(b"<20191004173832.005460@fish.localdomain>".to_vec())
    )
}

#[test]
fn content_type() {
    let tok = header(b"Content-Type: multipart/mixed; boundary=--boundary--\r\n").unwrap();
    let expected_params = vec![(b"boundary".to_vec(), b"--boundary--".to_vec())];
    assert_eq!(
        tok,
        Header::ContentType {
            mime_type: b"multipart/mixed".to_vec(),
            parameters: expected_params,
        }
    )
}

#[test]
fn content_disposition() {
    let mut line =
        br#"Content-Disposition: attachment; filename=genome.jpeg; modification-date="Wed, 12 Feb 1997 16:29:51 -0500""#
            .to_vec();
    line.extend_from_slice(b"\r\n");
    let tok = header(&line).unwrap();
    let expected_params = vec![
        (b"filename".to_vec(), b"genome.jpeg".to_vec()),
        (
            b"modification-date".to_vec(),
            b"Wed, 12 Feb 1997 16:29:51 -0500".to_vec(),
        ),
    ];
    assert_eq!(
        tok,
        Header::ContentDisposition {
            disposition_type: b"attachment".to_vec(),
            parameters: expected_params,
        }
    )
}

#[test]
fn quoted_boundary() {
    let tok = header(b"Content-Type: multipart/mixed; boundary=\"-- boundary --\"\r\n").unwrap();
    let expected_params = vec![(b"boundary".to_vec(), b"-- boundary --".to_vec())];
    assert_eq!(
        tok,
        Header::ContentType {
            mime_type: b"multipart/mixed".to_vec(),
            parameters: expected_params,
        }
    )
}

#[test]
fn escaped_quoted_value() {
    let tok = header(b"Content-Disposition: attachment; filename=\"a \\\"b\\\" c\"\r\n").unwrap();
    let expected_params = vec![(b"filename".to_vec(), b"a \"b\" c".to_vec())];
    assert_eq!(
        tok,
        Header::ContentDisposition {
            disposition_type: b"attachment".to_vec(),
            parameters: expected_params,
        }
    )
}

#[test]
fn malformed_header_is_refused() {
    assert!(header(b"No colon here\r\n").is_none());
    assert!(header(b"Subject:\r\n").is_none());
}

#[test]
fn parameter_names_fold_case_and_later_values_win() {
    let tok = header(b"Content-Type: multipart/mixed; Boundary=\"first\"; BOUNDARY=second\r\n")
        .unwrap();
    match tok {
        Header::ContentType { parameters, .. } => {
            let v = find_param(&parameters, b"boundary").unwrap();
            assert_eq!(v, b"second".to_vec());
        }
        _ => panic!("Content-Type incorrectly parsed"),
    }
}
