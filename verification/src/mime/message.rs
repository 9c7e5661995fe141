//! A simplified overview of a parsed mail message: its parts, and which
//! part is the top, the primary text, the primary HTML, an attachment or
//! an inline.

use vstd::prelude::*;

verus! {

use crate::mime::event::{Mime, MimeModel};
use crate::mime::header::{Parameter, ParameterModel, params_model};

/// Common header fields
#[derive(Default, PartialEq, Eq, Debug)]
pub struct HeaderFields {
    /// Id of the mail message
    pub message_id: Option<Vec<u8>>,
    /// Mail message From field
    pub from: Option<Vec<u8>>,
    /// Mail message To field
    pub to: Option<Vec<u8>>,
    /// Mail message Date field
    pub date: Option<Vec<u8>>,
    /// Mail message Subject field
    pub subject: Option<Vec<u8>>,
    /// SMTP From field
    pub sender: Option<Vec<u8>>,
    /// Mail message Reply-To field
    pub reply_to: Option<Vec<u8>>,
}

/// The model of the common header fields
pub struct HeaderFieldsModel {
    pub message_id: Option<Seq<u8>>,
    pub from: Option<Seq<u8>>,
    pub to: Option<Seq<u8>>,
    pub date: Option<Seq<u8>>,
    pub subject: Option<Seq<u8>>,
    pub sender: Option<Seq<u8>>,
    pub reply_to: Option<Seq<u8>>,
}

/// The byte view of an optional field
pub open spec fn opt_bytes(v: Option<Vec<u8>>) -> Option<Seq<u8>> {
    match v {
        Some(b) => Some(b@),
        None => None,
    }
}

impl View for HeaderFields {
    type V = HeaderFieldsModel;

    open spec fn view(&self) -> HeaderFieldsModel {
        HeaderFieldsModel {
            message_id: opt_bytes(self.message_id),
            from: opt_bytes(self.from),
            to: opt_bytes(self.to),
            date: opt_bytes(self.date),
            subject: opt_bytes(self.subject),
            sender: opt_bytes(self.sender),
            reply_to: opt_bytes(self.reply_to),
        }
    }
}

/// The content type of one part
#[derive(Debug)]
pub struct ContentType {
    /// The MIME type
    pub mime_type: Mime,
    /// The parameters given with it
    pub parameters: Vec<Parameter>,
}

/// The model of a part's content type
pub struct ContentTypeModel {
    pub mime_type: MimeModel,
    pub parameters: ParameterModel,
}

impl View for ContentType {
    type V = ContentTypeModel;

    open spec fn view(&self) -> ContentTypeModel {
        ContentTypeModel { mime_type: self.mime_type@, parameters: params_model(self.parameters@) }
    }
}

/// Information about how message parts should be displayed
#[derive(Debug)]
pub struct ContentDisposition {
    /// The type of disposition e.g "attachment"
    pub disposition_type: Vec<u8>,
    /// Additional parameters to the disposition type e.g "filename"
    pub parameters: Vec<Parameter>,
}

/// The model of a part's content disposition
pub struct ContentDispositionModel {
    pub disposition_type: Seq<u8>,
    pub parameters: ParameterModel,
}

impl View for ContentDisposition {
    type V = ContentDispositionModel;

    open spec fn view(&self) -> ContentDispositionModel {
        ContentDispositionModel {
            disposition_type: self.disposition_type@,
            parameters: params_model(self.parameters@),
        }
    }
}

/// A part of an email message
#[derive(Debug)]
pub struct Part {
    /// Mail header
    pub header: HeaderFields,
    /// MIME content type
    pub content_type: Option<ContentType>,
    /// MIME content disposition
    pub content_disposition: Option<ContentDisposition>,
    /// Byte offset where the part starts
    pub start: usize,
    /// Byte offset just past the blank line ending the part's header block
    pub body_start: usize,
    /// Byte offset where the part ends
    pub end: usize,
}

/// The model of a part
pub struct PartModel {
    pub header: HeaderFieldsModel,
    pub content_type: Option<ContentTypeModel>,
    pub content_disposition: Option<ContentDispositionModel>,
    pub start: int,
    pub body_start: int,
    pub end: int,
}

impl View for Part {
    type V = PartModel;

    open spec fn view(&self) -> PartModel {
        PartModel {
            header: self.header@,
            content_type: match self.content_type {
                Some(ref c) => Some(c@),
                None => None,
            },
            content_disposition: match self.content_disposition {
                Some(ref c) => Some(c@),
                None => None,
            },
            start: self.start as int,
            body_start: self.body_start as int,
            end: self.end as int,
        }
    }
}

impl Part {
    /// Get start and length of the part
    pub fn position(&self) -> (r: (usize, usize))
        requires
            self.start <= self.end < usize::MAX,
        ensures
            r.0 == self.start,
            r.1 == self.end - self.start + 1,
    {
        (self.start, self.end - self.start + 1)
    }

    /// Get start and length of the body
    pub fn body(&self) -> (r: (usize, usize))
        requires
            self.body_start <= self.end < usize::MAX,
        ensures
            r.0 == self.body_start,
            r.1 == self.end - self.body_start + 1,
    {
        (self.body_start, self.end - self.body_start + 1)
    }
}

/// A simplified Email Message overview; most fields are indices into the
/// list of parts
#[derive(Debug)]
pub struct Message {
    /// The index of the first part
    pub top: usize,
    /// The index of the primary text part
    pub text: Option<usize>,
    /// The index of the primary HTML part
    pub html: Option<usize>,
    /// Indices of parts filed as attachments
    pub attachments: Vec<usize>,
    /// Indices of parts shown inline
    pub inlines: Vec<usize>,
    /// Indices of parts with any other disposition
    pub other: Vec<usize>,
    /// All parts in the order their ends were seen
    pub parts: Vec<Part>,
}

/// The model of a message overview
pub struct MessageModel {
    pub top: int,
    pub text: Option<int>,
    pub html: Option<int>,
    pub attachments: Seq<int>,
    pub inlines: Seq<int>,
    pub other: Seq<int>,
    pub parts: Seq<PartModel>,
}

/// The integer view of an optional index
pub open spec fn opt_index(v: Option<usize>) -> Option<int> {
    match v {
        Some(i) => Some(i as int),
        None => None,
    }
}

impl View for Message {
    type V = MessageModel;

    open spec fn view(&self) -> MessageModel {
        MessageModel {
            top: self.top as int,
            text: opt_index(self.text),
            html: opt_index(self.html),
            attachments: self.attachments@.map_values(|i: usize| i as int),
            inlines: self.inlines@.map_values(|i: usize| i as int),
            other: self.other@.map_values(|i: usize| i as int),
            parts: self.parts@.map_values(|p: Part| p@),
        }
    }
}

impl Message {
    /// The first part of the message
    pub fn top(&self) -> (r: Option<&Part>)
        ensures
            match r {
                Some(p) => self.top < self.parts@.len() && *p == self.parts@[self.top as int],
                None => self.top >= self.parts@.len(),
            },
    {
        if self.top < self.parts.len() {
            Some(&self.parts[self.top])
        } else {
            None
        }
    }

    /// The first text part of the message
    pub fn text(&self) -> (r: Option<&Part>)
        ensures
            match r {
                Some(p) => (self.text matches Some(i) && i < self.parts@.len() && *p
                    == self.parts@[i as int]),
                None => match self.text {
                    Some(i) => i >= self.parts@.len(),
                    None => true,
                },
            },
    {
        match &self.text {
            Some(i) => {
                if *i < self.parts.len() {
                    Some(&self.parts[*i])
                } else {
                    None
                }
            },
            None => None,
        }
    }

    /// The first HTML part of the message
    pub fn html(&self) -> (r: Option<&Part>)
        ensures
            match r {
                Some(p) => (self.html matches Some(i) && i < self.parts@.len() && *p
                    == self.parts@[i as int]),
                None => match self.html {
                    Some(i) => i >= self.parts@.len(),
                    None => true,
                },
            },
    {
        match &self.html {
            Some(i) => {
                if *i < self.parts.len() {
                    Some(&self.parts[*i])
                } else {
                    None
                }
            },
            None => None,
        }
    }

    /// Parts with disposition type "attachment", in filing order
    pub fn attachments(&self) -> (r: Vec<&Part>)
        ensures
            (forall|j: int|
                0 <= j < self.attachments@.len() ==> self.attachments@[j] < self.parts@.len())
                ==> r@.len() == self.attachments@.len() && (forall|j: int|
                0 <= j < r@.len() ==> *r@[j] == self.parts@[self.attachments@[j] as int]),
    {
        let mut out: Vec<&Part> = Vec::new();
        let mut i: usize = 0;
        while i < self.attachments.len()
            invariant
                i <= self.attachments@.len(),
                (forall|j: int|
                    0 <= j < self.attachments@.len() ==> self.attachments@[j]
                        < self.parts@.len()) ==> out@.len() == i && (forall|j: int|
                    0 <= j < out@.len() ==> *out@[j] == self.parts@[self.attachments@[j] as int]),
            decreases self.attachments@.len() - i,
        {
            let idx = self.attachments[i];
            if idx < self.parts.len() {
                out.push(&self.parts[idx]);
            }
            i = i + 1;
        }
        out
    }
}

} // verus!
