//! The aggregator that builds a [`Message`] overview from parsing events:
//! it tracks where the currently open part should be filed when it closes
//! (top, alternative text or HTML, first mixed child, attachment, inline,
//! other), letting a Content-Disposition header override the filing.

use vstd::prelude::*;

verus! {

use crate::mime::event::{Event, EventModel, Mime, MimeModel, Multipart, mime_type,
    mime_type_model};
use crate::mime::header::{HeaderModel, ParameterModel};
use crate::mime::message::{
    ContentType, ContentTypeModel, HeaderFields, HeaderFieldsModel, Message, MessageModel, Part,
    PartModel, opt_bytes, opt_index,
};
use crate::mime::parser::Handler;
use vstd::slice::slice_to_vec;

/// Where the currently open part is filed when it closes
#[derive(PartialEq, Eq, Structural, Clone, Copy, Debug)]
pub enum Target {
    /// The single top part of a non-alternative message
    Top,
    /// A child of a top-level multipart/alternative
    TopAlternative,
    /// A child of a nested multipart/alternative
    Alternative,
    /// The first child of a top-level multipart/mixed
    FirstMixed,
    /// An attachment
    Attachments,
    /// A part shown inline
    Inlines,
    /// Anything else
    Other,
}

/// The model of the aggregator
pub struct AggModel {
    pub is_multipart: bool,
    pub target: Target,
    pub current: PartModel,
    pub message: MessageModel,
}

/// The model of the aggregator before any event arrived
pub open spec fn fresh_agg() -> AggModel {
    AggModel {
        is_multipart: false,
        target: Target::Top,
        current: empty_part_model(),
        message: MessageModel {
            top: 0,
            text: None,
            html: None,
            attachments: Seq::empty(),
            inlines: Seq::empty(),
            other: Seq::empty(),
            parts: Seq::empty(),
        },
    }
}

/// The aggregator state after a whole sequence of events, in order
pub open spec fn agg_fold(m: AggModel, evs: Seq<EventModel>) -> AggModel
    decreases evs.len(),
{
    if evs.len() == 0 {
        m
    } else {
        agg_step(agg_fold(m, evs.drop_last()), evs.last())
    }
}

/// Folding one more event steps the fold once
pub proof fn lemma_agg_fold_push(m: AggModel, evs: Seq<EventModel>, e: EventModel)
    ensures
        agg_fold(m, evs.push(e)) == agg_step(agg_fold(m, evs), e),
{
    assert(evs.push(e).drop_last() =~= evs);
    assert(evs.push(e).last() == e);
}

/// The model of a fresh, empty part
pub open spec fn empty_part_model() -> PartModel {
    PartModel {
        header: HeaderFieldsModel {
            message_id: None,
            from: None,
            to: None,
            date: None,
            subject: None,
            sender: None,
            reply_to: None,
        },
        content_type: None,
        content_disposition: None,
        start: 0,
        body_start: 0,
        end: 0,
    }
}

/// Addition capped at the top of the offset space
pub open spec fn cap_add(a: int, b: int) -> int {
    if a + b <= usize::MAX {
        a + b
    } else {
        usize::MAX as int
    }
}

/// The bytes `text/plain`
pub open spec fn text_plain_bytes() -> Seq<u8> {
    seq![116u8, 101u8, 120u8, 116u8, 47u8, 112u8, 108u8, 97u8, 105u8, 110u8]
}

/// The bytes `text/html`
pub open spec fn text_html_bytes() -> Seq<u8> {
    seq![116u8, 101u8, 120u8, 116u8, 47u8, 104u8, 116u8, 109u8, 108u8]
}

/// The bytes `inline`
pub open spec fn inline_bytes() -> Seq<u8> {
    seq![105u8, 110u8, 108u8, 105u8, 110u8, 101u8]
}

/// The bytes `attachment`
pub open spec fn attachment_bytes() -> Seq<u8> {
    seq![97u8, 116u8, 116u8, 97u8, 99u8, 104u8, 109u8, 101u8, 110u8, 116u8]
}

/// Does the content type carry exactly this non-multipart MIME type?
pub open spec fn is_content_model(ct: Option<ContentTypeModel>, check: Seq<u8>) -> bool {
    match ct {
        Some(c) => c.mime_type matches MimeModel::Type(m) && m == check,
        None => false,
    }
}

/// Is this content type textual: absent, or exactly `text/plain`?
pub open spec fn is_content_text_model(ct: Option<ContentTypeModel>) -> bool {
    ct is None || is_content_model(ct, text_plain_bytes())
}

/// How one header updates the open part and the filing target
pub open spec fn on_header(m: AggModel, h: HeaderModel) -> AggModel {
    match h {
        HeaderModel::From(v) => AggModel {
            current: PartModel {
                header: HeaderFieldsModel { from: Some(v), ..m.current.header },
                ..m.current
            },
            ..m
        },
        HeaderModel::To(v) => AggModel {
            current: PartModel {
                header: HeaderFieldsModel { to: Some(v), ..m.current.header },
                ..m.current
            },
            ..m
        },
        HeaderModel::Date(v) => AggModel {
            current: PartModel {
                header: HeaderFieldsModel { date: Some(v), ..m.current.header },
                ..m.current
            },
            ..m
        },
        HeaderModel::Subject(v) => AggModel {
            current: PartModel {
                header: HeaderFieldsModel { subject: Some(v), ..m.current.header },
                ..m.current
            },
            ..m
        },
        HeaderModel::Sender(v) => AggModel {
            current: PartModel {
                header: HeaderFieldsModel { sender: Some(v), ..m.current.header },
                ..m.current
            },
            ..m
        },
        HeaderModel::ReplyTo(v) => AggModel {
            current: PartModel {
                header: HeaderFieldsModel { reply_to: Some(v), ..m.current.header },
                ..m.current
            },
            ..m
        },
        HeaderModel::MessageId(v) => AggModel {
            current: PartModel {
                header: HeaderFieldsModel { message_id: Some(v), ..m.current.header },
                ..m.current
            },
            ..m
        },
        HeaderModel::ContentType { mime_type, parameters } => AggModel {
            current: PartModel {
                content_type: Some(
                    ContentTypeModel { mime_type: mime_type_model(mime_type), parameters },
                ),
                ..m.current
            },
            ..m
        },
        HeaderModel::ContentDisposition { disposition_type, .. } => AggModel {
            target: on_disposition(m.target, disposition_type),
            ..m
        },
        _ => m,
    }
}

/// A Content-Disposition below the top level refiles the open part
pub open spec fn on_disposition(t: Target, disposition_type: Seq<u8>) -> Target {
    if t == Target::Top || t == Target::TopAlternative {
        t
    } else if disposition_type == inline_bytes() {
        Target::Inlines
    } else if disposition_type == attachment_bytes() {
        Target::Attachments
    } else {
        Target::Other
    }
}

/// The default filing target for the parts of a new multipart entity
pub open spec fn on_multipart_start(t: Target, mp: Multipart) -> Target {
    match mp {
        Multipart::Alternative => if t == Target::Top {
            Target::TopAlternative
        } else {
            Target::Alternative
        },
        Multipart::Mixed => if t == Target::Top {
            Target::FirstMixed
        } else {
            Target::Attachments
        },
        Multipart::Digest => Target::Attachments,
    }
}

/// Closing a part files it under the current target
pub open spec fn on_part_end(m: AggModel, offset: int) -> AggModel {
    let part = PartModel { end: offset, ..m.current };
    let idx = m.message.parts.len() as int;
    let parts = m.message.parts.push(part);
    let msg = MessageModel { parts, ..m.message };
    let ct = part.content_type;
    let (msg2, target2): (MessageModel, Target) = match m.target {
        Target::Top => (
            MessageModel {
                top: idx,
                text: if is_content_text_model(ct) {
                    Some(idx)
                } else {
                    msg.text
                },
                ..msg
            },
            m.target,
        ),
        Target::TopAlternative => if is_content_text_model(ct) {
            (MessageModel { top: idx, text: Some(idx), ..msg }, m.target)
        } else if is_content_model(ct, text_html_bytes()) {
            (MessageModel { html: Some(idx), ..msg }, m.target)
        } else {
            (MessageModel { top: idx, ..msg }, m.target)
        },
        Target::FirstMixed => (MessageModel { top: idx, ..msg }, Target::Attachments),
        Target::Alternative => (
            MessageModel { attachments: msg.attachments.push(idx), ..msg },
            m.target,
        ),
        Target::Attachments => (
            MessageModel { attachments: msg.attachments.push(idx), ..msg },
            m.target,
        ),
        Target::Inlines => (MessageModel { inlines: msg.inlines.push(idx), ..msg }, m.target),
        Target::Other => (MessageModel { other: msg.other.push(idx), ..msg }, m.target),
    };
    AggModel { target: target2, current: empty_part_model(), message: msg2, ..m }
}

/// Finishing a non-multipart message files the whole body as its one part
pub open spec fn on_agg_end(m: AggModel) -> AggModel {
    if !m.is_multipart {
        let idx = m.message.parts.len() as int;
        let parts = m.message.parts.push(m.current);
        AggModel {
            current: empty_part_model(),
            message: MessageModel {
                parts,
                top: idx,
                text: if is_content_text_model(m.current.content_type) {
                    Some(idx)
                } else {
                    m.message.text
                },
                ..m.message
            },
            ..m
        }
    } else {
        m
    }
}

/// What one event does to the aggregator
pub open spec fn agg_step(m: AggModel, ev: EventModel) -> AggModel {
    match ev {
        EventModel::Start => m,
        EventModel::Header(h) => on_header(m, h),
        EventModel::MultipartStart(mp) => AggModel {
            target: on_multipart_start(m.target, mp),
            ..m
        },
        EventModel::PartStart { offset } => AggModel {
            is_multipart: true,
            current: PartModel { start: offset, ..m.current },
            ..m
        },
        EventModel::PartEnd { offset } => on_part_end(m, offset),
        EventModel::BodyStart { offset } => AggModel {
            current: PartModel {
                body_start: offset,
                end: if offset > 0 {
                    offset - 1
                } else {
                    0
                },
                ..m.current
            },
            ..m
        },
        EventModel::Body(b) => AggModel {
            current: PartModel { end: cap_add(m.current.end, b.len() as int), ..m.current },
            ..m
        },
        EventModel::MultipartEnd => m,
        EventModel::End => on_agg_end(m),
    }
}

/// Event handler that builds Messages, used by the MessageParser
pub struct MessageHandler {
    /// Did any part boundary appear?
    pub is_multipart: bool,
    /// Where the open part will be filed
    pub target: Target,
    /// The part being collected
    pub current_part: Part,
    /// The overview built so far
    pub message: Message,
}

impl View for MessageHandler {
    type V = AggModel;

    open spec fn view(&self) -> AggModel {
        AggModel {
            is_multipart: self.is_multipart,
            target: self.target,
            current: self.current_part@,
            message: self.message@,
        }
    }
}

/// A fresh, empty part
fn empty_part() -> (p: Part)
    ensures
        p@ == empty_part_model(),
{
    Part {
        header: HeaderFields {
            message_id: None,
            from: None,
            to: None,
            date: None,
            subject: None,
            sender: None,
            reply_to: None,
        },
        content_type: None,
        content_disposition: None,
        start: 0,
        body_start: 0,
        end: 0,
    }
}

impl MessageHandler {
    /// An aggregator with no parts yet
    pub fn new() -> (h: MessageHandler)
        ensures
            h@ == fresh_agg(),
    {
        let h = MessageHandler {
            is_multipart: false,
            target: Target::Top,
            current_part: empty_part(),
            message: Message {
                top: 0,
                text: None,
                html: None,
                attachments: Vec::new(),
                inlines: Vec::new(),
                other: Vec::new(),
                parts: Vec::new(),
            },
        };
        proof {
            assert(h.message@.attachments =~= Seq::<int>::empty());
            assert(h.message@.inlines =~= Seq::<int>::empty());
            assert(h.message@.other =~= Seq::<int>::empty());
            assert(h.message@.parts =~= Seq::<PartModel>::empty());
        }
        h
    }

    /// Get the parsed mail message
    pub fn get_message(self) -> (m: Message)
        ensures
            m == self.message,
    {
        self.message
    }

    /// Close the open part at `offset` and file it
    fn part_end(&mut self, offset: usize)
        ensures
            final(self)@ == on_part_end(old(self)@, offset as int),
    {
        let ghost m0 = self@;
        self.current_part.end = offset;
        let mut part = empty_part();
        core::mem::swap(&mut part, &mut self.current_part);
        let is_text = match &part.content_type {
            None => true,
            Some(c) => match &c.mime_type {
                Mime::Type(t) => {
                    let pat: [u8; 10] = [116, 101, 120, 116, 47, 112, 108, 97, 105, 110];
                    assert(pat@ =~= text_plain_bytes());
                    crate::mime::header::bytes_eq(t.as_slice(), pat.as_slice())
                },
                _ => false,
            },
        };
        let is_html = match &part.content_type {
            None => false,
            Some(c) => match &c.mime_type {
                Mime::Type(t) => {
                    let pat: [u8; 9] = [116, 101, 120, 116, 47, 104, 116, 109, 108];
                    assert(pat@ =~= text_html_bytes());
                    crate::mime::header::bytes_eq(t.as_slice(), pat.as_slice())
                },
                _ => false,
            },
        };
        let idx = self.message.parts.len();
        let ghost part_model = part@;
        self.message.parts.push(part);
        proof {
            assert(self.message@.parts =~= m0.message.parts.push(
                PartModel { end: offset as int, ..m0.current },
            ));
        }
        match self.target {
            Target::Top => {
                self.message.top = idx;
                if is_text {
                    self.message.text = Some(idx);
                }
            },
            Target::TopAlternative => {
                if is_text {
                    self.message.top = idx;
                    self.message.text = Some(idx);
                } else if is_html {
                    self.message.html = Some(idx);
                } else {
                    self.message.top = idx;
                }
            },
            Target::FirstMixed => {
                self.message.top = idx;
                self.target = Target::Attachments;
            },
            Target::Alternative => {
                self.message.attachments.push(idx);
                proof {
                    assert(self.message@.attachments =~= m0.message.attachments.push(idx as int));
                }
            },
            Target::Attachments => {
                self.message.attachments.push(idx);
                proof {
                    assert(self.message@.attachments =~= m0.message.attachments.push(idx as int));
                }
            },
            Target::Inlines => {
                self.message.inlines.push(idx);
                proof {
                    assert(self.message@.inlines =~= m0.message.inlines.push(idx as int));
                }
            },
            Target::Other => {
                self.message.other.push(idx);
                proof {
                    assert(self.message@.other =~= m0.message.other.push(idx as int));
                }
            },
        }
    }

    /// Finish the message: a non-multipart body becomes its only part
    fn end(&mut self)
        ensures
            final(self)@ == on_agg_end(old(self)@),
    {
        let ghost m0 = self@;
        if !self.is_multipart {
            let idx = self.message.parts.len();
            let is_text = match &self.current_part.content_type {
                None => true,
                Some(c) => match &c.mime_type {
                    Mime::Type(t) => {
                        let pat: [u8; 10] = [116, 101, 120, 116, 47, 112, 108, 97, 105, 110];
                        assert(pat@ =~= text_plain_bytes());
                        crate::mime::header::bytes_eq(t.as_slice(), pat.as_slice())
                    },
                    _ => false,
                },
            };
            let mut part = empty_part();
            core::mem::swap(&mut part, &mut self.current_part);
            self.message.parts.push(part);
            proof {
                assert(self.message@.parts =~= m0.message.parts.push(m0.current));
            }
            self.message.top = idx;
            if is_text {
                self.message.text = Some(idx);
            }
        }
    }

    /// File one header into the open part, or refile the part on a
    /// Content-Disposition header
    fn handle_header(&mut self, h: crate::mime::header::Header)
        ensures
            final(self)@ == on_header(old(self)@, h@),
    {
        let ghost m0 = self@;
        match h {
            crate::mime::header::Header::From(v) => {
                self.current_part.header.from = Some(v);
            },
            crate::mime::header::Header::To(v) => {
                self.current_part.header.to = Some(v);
            },
            crate::mime::header::Header::Date(v) => {
                self.current_part.header.date = Some(v);
            },
            crate::mime::header::Header::Subject(v) => {
                self.current_part.header.subject = Some(v);
            },
            crate::mime::header::Header::Sender(v) => {
                self.current_part.header.sender = Some(v);
            },
            crate::mime::header::Header::ReplyTo(v) => {
                self.current_part.header.reply_to = Some(v);
            },
            crate::mime::header::Header::MessageId(v) => {
                self.current_part.header.message_id = Some(v);
            },
            crate::mime::header::Header::ContentType { mime_type: mt, parameters } => {
                let ct = mime_type(mt.as_slice());
                self.current_part.content_type = Some(ContentType { mime_type: ct, parameters });
            },
            crate::mime::header::Header::ContentDisposition { disposition_type, .. } => {
                if !(self.target == Target::Top || self.target == Target::TopAlternative) {
                    let inline_pat: [u8; 6] = [105, 110, 108, 105, 110, 101];
                    let attachment_pat: [u8; 10] = [97, 116, 116, 97, 99, 104, 109, 101, 110, 116];
                    assert(inline_pat@ =~= inline_bytes());
                    assert(attachment_pat@ =~= attachment_bytes());
                    if crate::mime::header::bytes_eq(
                        disposition_type.as_slice(),
                        inline_pat.as_slice(),
                    ) {
                        self.target = Target::Inlines;
                    } else if crate::mime::header::bytes_eq(
                        disposition_type.as_slice(),
                        attachment_pat.as_slice(),
                    ) {
                        self.target = Target::Attachments;
                    } else {
                        self.target = Target::Other;
                    }
                }
            },
            _ => {},
        }
    }
}

impl Handler for MessageHandler {
    /// Apply one event, exactly as [`agg_step`] prescribes
    fn event(&mut self, ev: Event)
        ensures
            final(self)@ == agg_step(old(self)@, ev@),
    {
        match ev {
            Event::Start => {},
            Event::Header(h) => self.handle_header(h),
            Event::MultipartStart(mp) => {
                self.target = match mp {
                    Multipart::Alternative => if self.target == Target::Top {
                        Target::TopAlternative
                    } else {
                        Target::Alternative
                    },
                    Multipart::Mixed => if self.target == Target::Top {
                        Target::FirstMixed
                    } else {
                        Target::Attachments
                    },
                    Multipart::Digest => Target::Attachments,
                };
            },
            Event::PartStart { offset } => {
                self.is_multipart = true;
                self.current_part.start = offset;
            },
            Event::PartEnd { offset } => {
                self.part_end(offset);
            },
            Event::BodyStart { offset } => {
                self.current_part.body_start = offset;
                self.current_part.end = if offset > 0 {
                    offset - 1
                } else {
                    0
                };
            },
            Event::Body(b) => {
                let grown = self.current_part.end;
                let n = b.len();
                self.current_part.end = if grown <= usize::MAX - n {
                    grown + n
                } else {
                    usize::MAX
                };
            },
            Event::MultipartEnd => {},
            Event::End => {
                self.end();
            },
        }
    }
}

} // verus!
