use mailin::mime::event::{Event, Multipart};
use mailin::mime::header::Header;
use mailin::mime::parser::{EventParser, Handler};

struct TestHandler {
    current: usize,
    expected_events: Vec<Event>,
}

impl TestHandler {
    fn new(expected_events: Vec<Event>) -> Self {
        Self { current: 0, expected_events }
    }

    fn final_check(&self) {
        assert_eq!(self.current, self.expected_events.len());
    }
}

impl Handler for TestHandler {
    fn event(&mut self, ev: Event) {
        if let Some(expected) = self.expected_events.get(self.current) {
            assert_eq!(*expected, ev);
        }
        self.current += 1;
    }
}

fn join_lines(lines: &[&[u8]]) -> Vec<u8> {
    let mut out = Vec::new();
    for (i, line) in lines.iter().enumerate() {
        if i > 0 {
            out.push(b'\n');
        }
        out.extend_from_slice(line);
    }
    out
}

fn parse_message(message: &[u8], handler: TestHandler) -> TestHandler {
    let mut parser = EventParser::new(handler);
    for line in message.split(|ch| *ch == b'\n') {
        let mut buf = line.to_vec();
        buf.extend_from_slice(b"\r\n");
        assert!(parser.write(&buf));
    }
    parser.end().0
}

const ALT_BOUNDARY: &[u8] = b"----=_NextPart_DC7E1BB5_1105_4DB3_BAE3_2A6208EB099D";

fn alternative_fixture() -> Vec<u8> {
    join_lines(&[
        b"X-sender: <sender@sendersdomain.com>",
        b"X-receiver: <somerecipient@recipientdomain.com>",
        b"From: \"Senders Name\" <sender@sendersdomain.com>",
        b"To: \"Recipient Name\" <somerecipient@recipientdomain.com>",
        b"Message-ID: <5bec11c119194c14999e592feb46e3cf@sendersdomain.com>",
        b"Date: Sat, 24 Sep 2005 15:06:49 -0400",
        b"Subject: Sample Multi-Part",
        b"MIME-Version: 1.0",
        b"Content-Type: multipart/alternative; boundary=\"----=_NextPart_DC7E1BB5_1105_4DB3_BAE3_2A6208EB099D\"",
        b"",
        b".",
        b"------=_NextPart_DC7E1BB5_1105_4DB3_BAE3_2A6208EB099D",
        b"Content-Type: text/plain; charset=iso-8859-1",
        b"Content-Transfer-Encoding: quoted-printable",
        b"",
        b"Sample Text Content",
        b"------=_NextPart_DC7E1BB5_1105_4DB3_BAE3_2A6208EB099D",
        b"Content-Type: text/html; charset=iso-8859-1",
        b"Content-Transfer-Encoding: quoted-printable",
        b"",
        b"<html>",
        b"<head>",
        b"</head>",
        b"<body>",
        b"  <div style=\"FONT-SIZE: 10pt; FONT-FAMILY: Arial\">Sample HTML =",
        b"  Content</div>",
        b"</body>",
        b"</html>",
        b"",
        b"------=_NextPart_DC7E1BB5_1105_4DB3_BAE3_2A6208EB099D--",
    ])
}

fn mixed_fixture() -> Vec<u8> {
    join_lines(&[
        b"From: Moderator-Address",
        b"To: Recipient-List",
        b"Date: Mon, 22 Mar 1994 13:34:51 +0000",
        b"Subject: Internet Digest, volume 42",
        b"MIME-Version: 1.0",
        b"Content-Type: multipart/mixed; boundary=\"---- main boundary ----\"",
        b"",
        b".",
        b"------ main boundary ----",
        b"",
        b"...Introductory text or table of contents...",
        b"",
        b"------ main boundary ----",
        b"Content-Type: multipart/digest; boundary=\"---- next message ----\"",
        b"",
        b".",
        b"------ next message ----",
        b"",
        b"From: someone-else",
        b"Date: Fri, 26 Mar 1993 11:13:32 +0200",
        b"Subject: my opinion",
        b"",
        b"...body goes here ...",
        b"",
        b"------ next message ----",
        b"",
        b"From: someone-else-again",
        b"Date: Fri, 26 Mar 1993 10:07:13 -0500",
        b"Subject: my different opinion",
        b"",
        b"... another body goes here ...",
        b"",
        b"------ next message ------",
        b"------ main boundary ------",
    ])
}

fn swaks_fixture() -> Vec<u8> {
    join_lines(&[
        b"Date: Fri, 04 Oct 2019 17:38:32 +0200",
        b"To: saul@localhost",
        b"From: saul@fish.localdomain",
        b"Subject: test Fri, 04 Oct 2019 17:38:32 +0200",
        b"Message-Id: <20191004173832.005460@fish.localdomain>",
        b"X-Mailer: swaks v20181104.0 jetmore.org/john/code/swaks/",
        b"",
        b"This is a test mailing",
        b"",
        b"",
        b"",
    ])
}

//--- Helper functions to create events ---

fn unstructured_header(key: &str, value: &str) -> Event {
    Event::Header(Header::Unstructured(key.as_bytes().to_vec(), value.as_bytes().to_vec()))
}

fn from(v: &str) -> Event {
    Event::Header(Header::From(v.as_bytes().to_vec()))
}

fn to(v: &str) -> Event {
    Event::Header(Header::To(v.as_bytes().to_vec()))
}

fn message_id(v: &str) -> Event {
    Event::Header(Header::MessageId(v.as_bytes().to_vec()))
}

fn subject(v: &str) -> Event {
    Event::Header(Header::Subject(v.as_bytes().to_vec()))
}

fn date(v: &str) -> Event {
    Event::Header(Header::Date(v.as_bytes().to_vec()))
}

fn content_type(mime: &str, param_key: &str, param_value: &str) -> Event {
    Event::Header(Header::ContentType {
        mime_type: mime.as_bytes().to_vec(),
        parameters: vec![(param_key.as_bytes().to_vec(), param_value.as_bytes().to_vec())],
    })
}

fn body(block: &str) -> Event {
    Event::Body(block.as_bytes().to_vec())
}

fn multipart_alternative_events() -> Vec<Event> {
    vec![
        Event::Start,
        unstructured_header("X-sender", "<sender@sendersdomain.com>"),
        unstructured_header("X-receiver", "<somerecipient@recipientdomain.com>"),
        from(r#""Senders Name" <sender@sendersdomain.com>"#),
        to(r#""Recipient Name" <somerecipient@recipientdomain.com>"#),
        message_id("<5bec11c119194c14999e592feb46e3cf@sendersdomain.com>"),
        date("Sat, 24 Sep 2005 15:06:49 -0400"),
        subject("Sample Multi-Part"),
        unstructured_header("MIME-Version", "1.0"),
        content_type(
            "multipart/alternative",
            "boundary",
            "----=_NextPart_DC7E1BB5_1105_4DB3_BAE3_2A6208EB099D",
        ),
        Event::MultipartStart(Multipart::Alternative),
        Event::PartStart { offset: 507 },
        content_type("text/plain", "charset", "iso-8859-1"),
        unstructured_header("Content-Transfer-Encoding", "quoted-printable"),
        Event::BodyStart { offset: 600 },
        body("Sample Text Content\r\n"),
        Event::PartEnd { offset: 621 },
        Event::PartStart { offset: 676 },
        content_type("text/html", "charset", "iso-8859-1"),
        unstructured_header("Content-Transfer-Encoding", "quoted-printable"),
        Event::BodyStart { offset: 768 },
        body("<html>\r\n"),
        body("<head>\r\n"),
        body("</head>\r\n"),
        body("<body>\r\n"),
        body("  <div style=\"FONT-SIZE: 10pt; FONT-FAMILY: Arial\">Sample HTML =\r\n"),
        body("  Content</div>\r\n"),
        body("</body>\r\n"),
        body("</html>\r\n"),
        body("\r\n"),
        Event::PartEnd { offset: 904 },
        Event::MultipartEnd,
        Event::End,
    ]
}

fn multipart_mixed_events() -> Vec<Event> {
    vec![
        Event::Start,
        from("Moderator-Address"),
        to("Recipient-List"),
        date("Mon, 22 Mar 1994 13:34:51 +0000"),
        subject("Internet Digest, volume 42"),
        unstructured_header("MIME-Version", "1.0"),
        content_type("multipart/mixed", "boundary", "---- main boundary ----"),
        Event::MultipartStart(Multipart::Mixed),
        Event::PartStart { offset: 239 },
        Event::BodyStart { offset: 241 },
        body("...Introductory text or table of contents...\r\n"),
        body("\r\n"),
        Event::PartEnd { offset: 289 },
        Event::PartStart { offset: 316 },
        content_type("multipart/digest", "boundary", "---- next message ----"),
        Event::MultipartStart(Multipart::Digest),
        Event::PartStart { offset: 414 },
        Event::BodyStart { offset: 416 },
        body("From: someone-else\r\n"),
        body("Date: Fri, 26 Mar 1993 11:13:32 +0200\r\n"),
        body("Subject: my opinion\r\n"),
        body("\r\n"),
        body("...body goes here ...\r\n"),
        body("\r\n"),
        Event::PartEnd { offset: 523 },
        Event::PartStart { offset: 549 },
        Event::BodyStart { offset: 551 },
        body("From: someone-else-again\r\n"),
        body("Date: Fri, 26 Mar 1993 10:07:13 -0500\r\n"),
        body("Subject: my different opinion\r\n"),
        body("\r\n"),
        body("... another body goes here ...\r\n"),
        body("\r\n"),
        Event::PartEnd { offset: 683 },
        Event::MultipartEnd,
        Event::End,
    ]
}

fn swaks_events() -> Vec<Event> {
    vec![
        Event::Start,
        date("Fri, 04 Oct 2019 17:38:32 +0200"),
        to("saul@localhost"),
        from("saul@fish.localdomain"),
        subject("test Fri, 04 Oct 2019 17:38:32 +0200"),
        message_id("<20191004173832.005460@fish.localdomain>"),
        unstructured_header("X-Mailer", "swaks v20181104.0 jetmore.org/john/code/swaks/"),
        Event::BodyStart { offset: 249 },
        body("This is a test mailing\r\n"),
        body("\r\n"),
        body("\r\n"),
        body("\r\n"),
        Event::End,
    ]
}

#[test]
fn events_multipart_alternative() {
    let msg = alternative_fixture();
    let handler = TestHandler::new(multipart_alternative_events());
    let handler = parse_message(&msg, handler);
    handler.final_check()
}

#[test]
fn events_multipart_mixed() {
    let msg = mixed_fixture();
    let handler = TestHandler::new(multipart_mixed_events());
    let handler = parse_message(&msg, handler);
    handler.final_check()
}

#[test]
fn events_swaks() {
    let msg = swaks_fixture();
    let handler = TestHandler::new(swaks_events());
    let handler = parse_message(&msg, handler);
    handler.final_check()
}
