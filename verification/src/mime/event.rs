//! The events the streaming parser emits, and the MIME types it
//! distinguishes.

use vstd::prelude::*;

verus! {

use crate::mime::header::{Header, HeaderModel};
use crate::parser::lower;

/// Events sent to a Handler
#[derive(PartialEq, Eq, Debug, Clone)]
pub enum Event {
    /// Parsing has Started
    Start,
    /// Header line
    Header(Header),
    /// Start of a MIME multipart entity
    MultipartStart(Multipart),
    /// Start of a MIME mulitpart part
    PartStart {
        /// Byte offset of the Part in the mail message
        offset: usize,
    },
    /// Start of a Body
    BodyStart {
        /// Byte offset of the Body in the mail message
        offset: usize,
    },
    /// A line of an email body
    Body(Vec<u8>),
    /// End of a MIME mulitpart part
    PartEnd {
        /// Byte offset of the end of the Part in the mail message
        offset: usize,
    },
    /// End of a MIME multipart entity
    MultipartEnd,
    /// Parsing has finished
    End,
}

/// The mathematical model of an event
pub enum EventModel {
    Start,
    Header(HeaderModel),
    MultipartStart(Multipart),
    PartStart { offset: int },
    BodyStart { offset: int },
    Body(Seq<u8>),
    PartEnd { offset: int },
    MultipartEnd,
    End,
}

impl View for Event {
    type V = EventModel;

    open spec fn view(&self) -> EventModel {
        match self {
            Event::Start => EventModel::Start,
            Event::Header(h) => EventModel::Header(h@),
            Event::MultipartStart(m) => EventModel::MultipartStart(*m),
            Event::PartStart { offset } => EventModel::PartStart { offset: *offset as int },
            Event::BodyStart { offset } => EventModel::BodyStart { offset: *offset as int },
            Event::Body(b) => EventModel::Body(b@),
            Event::PartEnd { offset } => EventModel::PartEnd { offset: *offset as int },
            Event::MultipartEnd => EventModel::MultipartEnd,
            Event::End => EventModel::End,
        }
    }
}

/// A MIME type
#[derive(Debug, Clone, PartialEq, Eq)]
pub enum Mime {
    /// A multipart MIME type
    Multipart(Multipart),
    /// Not a multipart MIME type
    Type(Vec<u8>),
}

/// The model of a MIME type
pub enum MimeModel {
    Multipart(Multipart),
    Type(Seq<u8>),
}

impl View for Mime {
    type V = MimeModel;

    open spec fn view(&self) -> MimeModel {
        match self {
            Mime::Multipart(m) => MimeModel::Multipart(*m),
            Mime::Type(v) => MimeModel::Type(v@),
        }
    }
}

/// Multipart MIME types
#[derive(Debug, Clone, Copy, PartialEq, Eq, Structural)]
pub enum Multipart {
    /// MIME multipart alternative e.g text vs html
    Alternative,
    /// MIME multipart mixed content types. Usually inline.
    Mixed,
    /// MIME multipart message digest
    Digest,
}

/// ASCII-case-insensitive equality of two byte strings
pub open spec fn bytes_nocase_eq(a: Seq<u8>, b: Seq<u8>) -> bool {
    a.len() == b.len() && forall|i: int| 0 <= i < a.len() ==> lower(a[i]) == lower(b[i])
}

/// The bytes `multipart/alternative`
pub open spec fn multipart_alternative_bytes() -> Seq<u8> {
    seq![
        109u8, 117u8, 108u8, 116u8, 105u8, 112u8, 97u8, 114u8, 116u8, 47u8, 97u8, 108u8, 116u8,
        101u8, 114u8, 110u8, 97u8, 116u8, 105u8, 118u8, 101u8,
    ]
}

/// The bytes `multipart/mixed`
pub open spec fn multipart_mixed_bytes() -> Seq<u8> {
    seq![109u8, 117u8, 108u8, 116u8, 105u8, 112u8, 97u8, 114u8, 116u8, 47u8, 109u8, 105u8, 120u8,
        101u8, 100u8]
}

/// The bytes `multipart/digest`
pub open spec fn multipart_digest_bytes() -> Seq<u8> {
    seq![109u8, 117u8, 108u8, 116u8, 105u8, 112u8, 97u8, 114u8, 116u8, 47u8, 100u8, 105u8, 103u8,
        101u8, 115u8, 116u8]
}

/// The MIME type a Content-Type value denotes: one of the three known
/// multipart types, matched case-insensitively, or the raw bytes
pub open spec fn mime_type_model(v: Seq<u8>) -> MimeModel {
    if bytes_nocase_eq(v, multipart_alternative_bytes()) {
        MimeModel::Multipart(Multipart::Alternative)
    } else if bytes_nocase_eq(v, multipart_mixed_bytes()) {
        MimeModel::Multipart(Multipart::Mixed)
    } else if bytes_nocase_eq(v, multipart_digest_bytes()) {
        MimeModel::Multipart(Multipart::Digest)
    } else {
        MimeModel::Type(v)
    }
}

/// Classify a Content-Type value
pub fn mime_type(v: &[u8]) -> (m: Mime)
    ensures
        m@ == mime_type_model(v@),
{
    let alternative: [u8; 21] = [
        109, 117, 108, 116, 105, 112, 97, 114, 116, 47, 97, 108, 116, 101, 114, 110, 97, 116, 105,
        118, 101,
    ];
    let mixed: [u8; 15] = [109, 117, 108, 116, 105, 112, 97, 114, 116, 47, 109, 105, 120, 101, 100];
    let digest: [u8; 16] = [
        109, 117, 108, 116, 105, 112, 97, 114, 116, 47, 100, 105, 103, 101, 115, 116,
    ];
    assert(alternative@ =~= multipart_alternative_bytes());
    assert(mixed@ =~= multipart_mixed_bytes());
    assert(digest@ =~= multipart_digest_bytes());
    if bytes_eq_nocase(v, alternative.as_slice()) {
        Mime::Multipart(Multipart::Alternative)
    } else if bytes_eq_nocase(v, mixed.as_slice()) {
        Mime::Multipart(Multipart::Mixed)
    } else if bytes_eq_nocase(v, digest.as_slice()) {
        Mime::Multipart(Multipart::Digest)
    } else {
        Mime::Type(vstd::slice::slice_to_vec(v))
    }
}

/// Compare two byte strings, folding ASCII case
pub fn bytes_eq_nocase(a: &[u8], b: &[u8]) -> (r: bool)
    ensures
        r == bytes_nocase_eq(a@, b@),
{
    if a.len() != b.len() {
        return false;
    }
    let mut i: usize = 0;
    while i < a.len()
        invariant
            i <= a@.len(),
            a@.len() == b@.len(),
            forall|j: int| 0 <= j < i ==> lower(a@[j]) == lower(b@[j]),
        decreases a@.len() - i,
    {
        let x = a[i];
        let y = b[i];
        let xl = if 65 <= x && x <= 90 {
            x + 32
        } else {
            x
        };
        let yl = if 65 <= y && y <= 90 {
            y + 32
        } else {
            y
        };
        if xl != yl {
            return false;
        }
        i = i + 1;
    }
    true
}

} // verus!
