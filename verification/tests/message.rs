use mailin::mime::message::{HeaderFields, Message};
use mailin::mime::message_parser::MessageParser;

fn join_lines(lines: &[&[u8]]) -> Vec<u8> {
    let mut out = Vec::new();
    for (i, line) in lines.iter().enumerate() {
        if i > 0 {
            out.push(b'\n');
        }
        out.extend_from_slice(line);
    }
    out
}

fn alternative_fixture() -> Vec<u8> {
    join_lines(&[
        b"X-sender: <sender@sendersdomain.com>",
        b"X-receiver: <somerecipient@recipientdomain.com>",
        b"From: \"Senders Name\" <sender@sendersdomain.com>",
        b"To: \"Recipient Name\" <somerecipient@recipientdomain.com>",
        b"Message-ID: <5bec11c119194c14999e592feb46e3cf@sendersdomain.com>",
        b"Date: Sat, 24 Sep 2005 15:06:49 -0400",
        b"Subject: Sample Multi-Part",
        b"MIME-Version: 1.0",
        b"Content-Type: multipart/alternative; boundary=\"----=_NextPart_DC7E1BB5_1105_4DB3_BAE3_2A6208EB099D\"",
        b"",
        b".",
        b"------=_NextPart_DC7E1BB5_1105_4DB3_BAE3_2A6208EB099D",
        b"Content-Type: text/plain; charset=iso-8859-1",
        b"Content-Transfer-Encoding: quoted-printable",
        b"",
        b"Sample Text Content",
        b"------=_NextPart_DC7E1BB5_1105_4DB3_BAE3_2A6208EB099D",
        b"Content-Type: text/html; charset=iso-8859-1",
        b"Content-Transfer-Encoding: quoted-printable",
        b"",
        b"<html>",
        b"<head>",
        b"</head>",
        b"<body>",
        b"  <div style=\"FONT-SIZE: 10pt; FONT-FAMILY: Arial\">Sample HTML =",
        b"  Content</div>",
        b"</body>",
        b"</html>",
        b"",
        b"------=_NextPart_DC7E1BB5_1105_4DB3_BAE3_2A6208EB099D--",
    ])
}

fn mixed_fixture() -> Vec<u8> {
    join_lines(&[
        b"From: Moderator-Address",
        b"To: Recipient-List",
        b"Date: Mon, 22 Mar 1994 13:34:51 +0000",
        b"Subject: Internet Digest, volume 42",
        b"MIME-Version: 1.0",
        b"Content-Type: multipart/mixed; boundary=\"---- main boundary ----\"",
        b"",
        b".",
        b"------ main boundary ----",
        b"",
        b"...Introductory text or table of contents...",
        b"",
        b"------ main boundary ----",
        b"Content-Type: multipart/digest; boundary=\"---- next message ----\"",
        b"",
        b".",
        b"------ next message ----",
        b"",
        b"From: someone-else",
        b"Date: Fri, 26 Mar 1993 11:13:32 +0200",
        b"Subject: my opinion",
        b"",
        b"...body goes here ...",
        b"",
        b"------ next message ----",
        b"",
        b"From: someone-else-again",
        b"Date: Fri, 26 Mar 1993 10:07:13 -0500",
        b"Subject: my different opinion",
        b"",
        b"... another body goes here ...",
        b"",
        b"------ next message ------",
        b"------ main boundary ------",
    ])
}

fn swaks_fixture() -> Vec<u8> {
    join_lines(&[
        b"Date: Fri, 04 Oct 2019 17:38:32 +0200",
        b"To: saul@localhost",
        b"From: saul@fish.localdomain",
        b"Subject: test Fri, 04 Oct 2019 17:38:32 +0200",
        b"Message-Id: <20191004173832.005460@fish.localdomain>",
        b"X-Mailer: swaks v20181104.0 jetmore.org/john/code/swaks/",
        b"",
        b"This is a test mailing",
        b"",
        b"",
        b"",
    ])
}

fn field(value: &[u8]) -> Option<Vec<u8>> {
    Some(value.to_vec())
}

fn parse_message(message: &[u8]) -> Message {
    let mut parser = MessageParser::new();
    for line in message.split(|ch| *ch == b'\n') {
        let mut buf = line.to_vec();
        buf.extend_from_slice(b"\r\n");
        assert!(parser.write(&buf));
    }
    parser.end()
}

#[test]
fn message_multipart_alternative() {
    let msg = alternative_fixture();
    let message = parse_message(&msg);
    let expected_header = HeaderFields {
        message_id: field(b"<5bec11c119194c14999e592feb46e3cf@sendersdomain.com>"),
        from: field(br#""Senders Name" <sender@sendersdomain.com>"#),
        to: field(br#""Recipient Name" <somerecipient@recipientdomain.com>"#),
        date: field(b"Sat, 24 Sep 2005 15:06:49 -0400"),
        reply_to: None,
        sender: None,
        subject: field(b"Sample Multi-Part"),
    };
    let header = &message.text().unwrap().header;
    assert_eq!(header, &expected_header);
    let header = &message.top().unwrap().header;
    assert_eq!(header, &expected_header);
    assert_eq!(message.top().unwrap().body(), (600, 22));
    assert_eq!(message.html().unwrap().body(), (768, 137));
    // the regions a well-formed parse reports are ordered
    let top = message.top().unwrap();
    assert!(top.start < top.body_start && top.body_start < top.end);
    let html = message.html().unwrap();
    assert!(html.start < html.body_start && html.body_start < html.end);
    assert!(top.end < html.start);
}

#[test]
fn message_multipart_mixed() {
    let msg = mixed_fixture();
    let message = parse_message(&msg);
    let expected_top_header = HeaderFields {
        message_id: None,
        from: field(b"Moderator-Address"),
        to: field(b"Recipient-List"),
        date: field(b"Mon, 22 Mar 1994 13:34:51 +0000"),
        reply_to: None,
        sender: None,
        subject: field(b"Internet Digest, volume 42"),
    };
    let top_header = &message.top().unwrap().header;
    assert_eq!(top_header, &expected_top_header);
    assert_eq!(message.top().unwrap().body(), (241, 49));
    for (i, attachment) in message.attachments().iter().enumerate() {
        match i {
            0 => assert_eq!(attachment.position(), (414, 110)),
            1 => assert_eq!(attachment.position(), (549, 135)),
            _ => panic!("Unexpected attachment"),
        }
    }
    assert_eq!(message.attachments().len(), 2);
}

#[test]
fn message_swaks() {
    let msg = swaks_fixture();
    let message = parse_message(&msg);
    let expected_header = HeaderFields {
        message_id: field(b"<20191004173832.005460@fish.localdomain>"),
        from: field(b"saul@fish.localdomain"),
        to: field(b"saul@localhost"),
        date: field(b"Fri, 04 Oct 2019 17:38:32 +0200"),
        reply_to: None,
        sender: None,
        subject: field(b"test Fri, 04 Oct 2019 17:38:32 +0200"),
    };
    let header = &message.top().unwrap().header;
    assert_eq!(header, &expected_header);
    let header = &message.text().unwrap().header;
    assert_eq!(header, &expected_header);
    // the single part of a non-multipart message runs to end of input
    assert_eq!(message.top().unwrap().body(), (249, 30));
}
