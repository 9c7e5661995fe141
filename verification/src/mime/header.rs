//! The typed value of one unfolded header line.

use vstd::prelude::*;

verus! {

use crate::parser::lower;

/// One `attribute=value` parameter of a Content-Type or
/// Content-Disposition header, as raw bytes
pub type Parameter = (Vec<u8>, Vec<u8>);

/// The model of a parameter list: the attribute and value byte strings in
/// the order they were written
pub type ParameterModel = Seq<(Seq<u8>, Seq<u8>)>;

/// The model of a parameter list of parsed parameters
pub open spec fn params_model(p: Seq<Parameter>) -> ParameterModel {
    p.map_values(|kv: Parameter| (kv.0@, kv.1@))
}

/// Header contains information about an email header event
#[derive(PartialEq, Eq, Debug, Clone)]
pub enum Header {
    /// A header containing unstructured information as key, value
    Unstructured(Vec<u8>, Vec<u8>),
    /// A Content-Type header
    ContentType {
        /// The MIME type
        mime_type: Vec<u8>,
        /// Additional parameters to the MIME type
        parameters: Vec<Parameter>,
    },
    /// Email From header
    From(Vec<u8>),
    /// Email To header
    To(Vec<u8>),
    /// An unparsed Email Date
    Date(Vec<u8>),
    /// Presentation information about a MIME part
    ContentDisposition {
        /// The type of disposition e.g "attachment"
        disposition_type: Vec<u8>,
        /// Additional parameters to the disposition type e.g "filename"
        parameters: Vec<Parameter>,
    },
    /// Description of a MIME part
    ContentDescription(Vec<u8>),
    /// Subject header
    Subject(Vec<u8>),
    /// The SMTP sender header
    Sender(Vec<u8>),
    /// Reply-To header
    ReplyTo(Vec<u8>),
    /// The Message-ID of the email message
    MessageId(Vec<u8>),
    /// End of the header
    End,
}

/// The mathematical model of a header value
pub enum HeaderModel {
    Unstructured(Seq<u8>, Seq<u8>),
    ContentType { mime_type: Seq<u8>, parameters: ParameterModel },
    From(Seq<u8>),
    To(Seq<u8>),
    Date(Seq<u8>),
    ContentDisposition { disposition_type: Seq<u8>, parameters: ParameterModel },
    ContentDescription(Seq<u8>),
    Subject(Seq<u8>),
    Sender(Seq<u8>),
    ReplyTo(Seq<u8>),
    MessageId(Seq<u8>),
    End,
}

impl View for Header {
    type V = HeaderModel;

    open spec fn view(&self) -> HeaderModel {
        match self {
            Header::Unstructured(k, v) => HeaderModel::Unstructured(k@, v@),
            Header::ContentType { mime_type, parameters } => HeaderModel::ContentType {
                mime_type: mime_type@,
                parameters: params_model(parameters@),
            },
            Header::From(v) => HeaderModel::From(v@),
            Header::To(v) => HeaderModel::To(v@),
            Header::Date(v) => HeaderModel::Date(v@),
            Header::ContentDisposition { disposition_type, parameters } => {
                HeaderModel::ContentDisposition {
                    disposition_type: disposition_type@,
                    parameters: params_model(parameters@),
                }
            },
            Header::ContentDescription(v) => HeaderModel::ContentDescription(v@),
            Header::Subject(v) => HeaderModel::Subject(v@),
            Header::Sender(v) => HeaderModel::Sender(v@),
            Header::ReplyTo(v) => HeaderModel::ReplyTo(v@),
            Header::MessageId(v) => HeaderModel::MessageId(v@),
            Header::End => HeaderModel::End,
        }
    }
}

/// ASCII-case-insensitive equality of two attribute names
pub open spec fn attr_eq(a: Seq<u8>, b: Seq<u8>) -> bool {
    a.len() == b.len() && forall|i: int| 0 <= i < a.len() ==> lower(a[i]) == lower(b[i])
}

/// The value of the parameter named `key`: attribute names match with
/// ASCII case folded, and of several parameters with the same attribute
/// the last one written wins
pub open spec fn param_lookup(params: ParameterModel, key: Seq<u8>) -> Option<Seq<u8>>
    decreases params.len(),
{
    if params.len() == 0 {
        None
    } else if attr_eq(params.last().0, key) {
        Some(params.last().1)
    } else {
        param_lookup(params.drop_last(), key)
    }
}

/// Find the value of the last parameter whose attribute names `key`,
/// matched with ASCII case folded
pub fn find_param(params: &Vec<Parameter>, key: &[u8]) -> (r: Option<Vec<u8>>)
    ensures
        match r {
            Some(v) => param_lookup(params_model(params@), key@) == Some(v@),
            None => param_lookup(params_model(params@), key@) is None,
        },
{
    let mut found: Option<Vec<u8>> = None;
    let mut i: usize = 0;
    assert(params_model(params@).take(0) =~= Seq::<(Seq<u8>, Seq<u8>)>::empty());
    while i < params.len()
        invariant
            i <= params@.len(),
            match found {
                Some(v) => param_lookup(params_model(params@).take(i as int), key@) == Some(v@),
                None => param_lookup(params_model(params@).take(i as int), key@) is None,
            },
        decreases params@.len() - i,
    {
        proof {
            assert(params_model(params@).take(i + 1 as int).drop_last() =~= params_model(
                params@,
            ).take(i as int));
        }
        if crate::mime::event::bytes_eq_nocase(params[i].0.as_slice(), key) {
            found = Some(vstd::slice::slice_to_vec(params[i].1.as_slice()));
        }
        i = i + 1;
    }
    proof {
        assert(params_model(params@).take(params@.len() as int) =~= params_model(params@));
    }
    found
}

/// Are two byte strings identical?
pub fn bytes_eq(a: &[u8], b: &[u8]) -> (r: bool)
    ensures
        r == (a@ == b@),
{
    if a.len() != b.len() {
        return false;
    }
    let mut i: usize = 0;
    while i < a.len()
        invariant
            i <= a@.len(),
            a@.len() == b@.len(),
            forall|j: int| 0 <= j < i ==> a@[j] == b@[j],
        decreases a@.len() - i,
    {
        if a[i] != b[i] {
            return false;
        }
        i = i + 1;
    }
    proof {
        assert(a@ =~= b@);
    }
    true
}

} // verus!
