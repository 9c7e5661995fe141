//! The header line parser: one unfolded header line in, one typed
//! [`Header`] out. Typed headers are matched case-insensitively and demand
//! a colon followed by at least one space; `Content-Type` and
//! `Content-Disposition` additionally parse their `; attribute=value`
//! parameters, where a value is a token or a quoted string with backslash
//! escapes. Anything else with a `key: value` shape is unstructured, and
//! a line that fits no rule is a parse error.

use vstd::prelude::*;

verus! {

use crate::mime::header::{Header, HeaderModel, Parameter, ParameterModel, params_model};
use crate::parser::{
    check_wf_line, find_byte, find_in, first_nonspace, lemma_first_nonspace_bounds,
    nonspace_from, prefix_nocase, token_at, wf_line,
};
use vstd::slice::{slice_subrange, slice_to_vec};

//------ Byte classes ----------------------------------------------------------

/// The specials that may not appear in a parameter token
pub open spec fn is_tspecial(b: u8) -> bool {
    b == 40 || b == 41 || b == 60 || b == 62 || b == 64 || b == 44 || b == 59 || b == 58 || b == 92
        || b == 34 || b == 47 || b == 91 || b == 93 || b == 63 || b == 61
}

/// A byte allowed in a parameter token: no space, no tspecial, no CR or LF
pub open spec fn is_token_byte(b: u8) -> bool {
    b != 32 && !is_tspecial(b) && b != 13 && b != 10
}

/// The first position in `[i, end)` whose byte may not continue a token
pub open spec fn token_run_end(s: Seq<u8>, i: int, end: int) -> int
    decreases end - i,
{
    if i < 0 || i >= end {
        end
    } else if !is_token_byte(s[i]) {
        i
    } else {
        token_run_end(s, i + 1, end)
    }
}

/// The first position in `[i, end)` whose byte ends an unstructured header
/// key: a colon or a space
pub open spec fn key_run_end(s: Seq<u8>, i: int, end: int) -> int
    decreases end - i,
{
    if i < 0 || i >= end {
        end
    } else if s[i] == 58 || s[i] == 32 {
        i
    } else {
        key_run_end(s, i + 1, end)
    }
}

/// The position of the quote closing a quoted string scanned from `i`,
/// skipping backslash-escaped bytes, or `end` when the string never closes
pub open spec fn quote_close(s: Seq<u8>, i: int, end: int) -> int
    decreases end - i,
{
    if i < 0 || i >= end {
        end
    } else if s[i] == 34 {
        i
    } else if s[i] == 92 && i + 2 <= end {
        quote_close(s, i + 2, end)
    } else if s[i] == 92 {
        end
    } else {
        quote_close(s, i + 1, end)
    }
}

/// The content of the quoted string `[i, e)` with backslash escapes removed
pub open spec fn unescape(s: Seq<u8>, i: int, e: int) -> Seq<u8>
    decreases e - i,
{
    if i < 0 || i >= e {
        seq![]
    } else if s[i] == 92 && i + 1 < e {
        seq![s[i + 1]] + unescape(s, i + 2, e)
    } else {
        seq![s[i]] + unescape(s, i + 1, e)
    }
}

proof fn lemma_token_run_end_bounds(s: Seq<u8>, i: int, end: int)
    requires
        0 <= i <= end <= s.len(),
    ensures
        i <= token_run_end(s, i, end) <= end,
    decreases end - i,
{
    if i < end && is_token_byte(s[i]) {
        lemma_token_run_end_bounds(s, i + 1, end);
    }
}

proof fn lemma_key_run_end_bounds(s: Seq<u8>, i: int, end: int)
    requires
        0 <= i <= end <= s.len(),
    ensures
        i <= key_run_end(s, i, end) <= end,
    decreases end - i,
{
    if i < end && !(s[i] == 58 || s[i] == 32) {
        lemma_key_run_end_bounds(s, i + 1, end);
    }
}

proof fn lemma_quote_close_bounds(s: Seq<u8>, i: int, end: int)
    requires
        0 <= i <= end <= s.len(),
    ensures
        i <= quote_close(s, i, end) <= end,
    decreases end - i,
{
    if i < end && s[i] != 34 {
        if s[i] == 92 && i + 2 <= end {
            lemma_quote_close_bounds(s, i + 2, end);
        } else if s[i] != 92 {
            lemma_quote_close_bounds(s, i + 1, end);
        }
    }
}

//------ Header names ------------------------------------------------------------

pub open spec fn content_type_name() -> Seq<u8> {
    seq![99u8, 111u8, 110u8, 116u8, 101u8, 110u8, 116u8, 45u8, 116u8, 121u8, 112u8, 101u8]  // "content-type"
}

pub open spec fn content_disposition_name() -> Seq<u8> {
    seq![
        99u8, 111u8, 110u8, 116u8, 101u8, 110u8, 116u8, 45u8, 100u8, 105u8, 115u8, 112u8, 111u8,
        115u8, 105u8, 116u8, 105u8, 111u8, 110u8,
    ]  // "content-disposition"
}

pub open spec fn content_description_name() -> Seq<u8> {
    seq![
        99u8, 111u8, 110u8, 116u8, 101u8, 110u8, 116u8, 45u8, 100u8, 101u8, 115u8, 99u8, 114u8,
        105u8, 112u8, 116u8, 105u8, 111u8, 110u8,
    ]  // "content-description"
}

pub open spec fn from_name() -> Seq<u8> {
    seq![102u8, 114u8, 111u8, 109u8]  // "from"
}

pub open spec fn to_name() -> Seq<u8> {
    seq![116u8, 111u8]  // "to"
}

pub open spec fn subject_name() -> Seq<u8> {
    seq![115u8, 117u8, 98u8, 106u8, 101u8, 99u8, 116u8]  // "subject"
}

pub open spec fn sender_name() -> Seq<u8> {
    seq![115u8, 101u8, 110u8, 100u8, 101u8, 114u8]  // "sender"
}

pub open spec fn reply_to_name() -> Seq<u8> {
    seq![114u8, 101u8, 112u8, 108u8, 121u8, 45u8, 116u8, 111u8]  // "reply-to"
}

pub open spec fn message_id_name() -> Seq<u8> {
    seq![109u8, 101u8, 115u8, 115u8, 97u8, 103u8, 101u8, 45u8, 105u8, 100u8]  // "message-id"
}

pub open spec fn date_name() -> Seq<u8> {
    seq![100u8, 97u8, 116u8, 101u8]  // "date"
}

//------ The grammar -------------------------------------------------------------

/// The value of a typed header `name: value`: the name matched case
/// insensitively at the start of the line, a colon, at least one space,
/// then a non-empty value running to the end of the line
pub open spec fn simple_header_value(l: Seq<u8>, n: int, name: Seq<u8>) -> Option<Seq<u8>> {
    if token_at(l, 0, n, name) {
        let i = name.len() as int;
        if i < n && l[i] == 58 && i + 1 < n && l[i + 1] == 32 {
            let v = first_nonspace(l, i + 1, n);
            if v < n {
                Some(l.subrange(v, n))
            } else {
                None
            }
        } else {
            None
        }
    } else {
        None
    }
}

/// The parameters `; attribute=value` from position `k` to the end of the
/// line; `None` where anything else stands there
pub open spec fn parse_params_from(l: Seq<u8>, n: int, k: int) -> Option<ParameterModel>
    decreases n - k,
    when 0 <= k <= n <= l.len()
    via parse_params_from_dec
{
    if k == n {
        Some(Seq::empty())
    } else if l[k] == 59 && k + 1 < n && l[k + 1] == 32 {
        let a = first_nonspace(l, k + 1, n);
        let ae = token_run_end(l, a, n);
        if a < ae && ae < n && l[ae] == 61 {
            if ae + 1 < n && l[ae + 1] == 34 {
                let qe = quote_close(l, ae + 2, n);
                if qe < n {
                    match parse_params_from(l, n, qe + 1) {
                        Some(rest) => Some(
                            seq![(l.subrange(a, ae), unescape(l, ae + 2, qe))] + rest,
                        ),
                        None => None,
                    }
                } else {
                    None
                }
            } else {
                let ve = token_run_end(l, ae + 1, n);
                if ve > ae + 1 {
                    match parse_params_from(l, n, ve) {
                        Some(rest) => Some(
                            seq![(l.subrange(a, ae), l.subrange(ae + 1, ve))] + rest,
                        ),
                        None => None,
                    }
                } else {
                    None
                }
            }
        } else {
            None
        }
    } else {
        None
    }
}

#[via_fn]
proof fn parse_params_from_dec(l: Seq<u8>, n: int, k: int) {
    if k < n && l[k] == 59 && k + 1 < n && l[k + 1] == 32 {
        lemma_first_nonspace_bounds(l, k + 1, n);
        let a = first_nonspace(l, k + 1, n);
        lemma_token_run_end_bounds(l, a, n);
        let ae = token_run_end(l, a, n);
        if a < ae && ae < n && l[ae] == 61 {
            if ae + 1 < n && l[ae + 1] == 34 {
                lemma_quote_close_bounds(l, ae + 2, n);
            } else {
                lemma_token_run_end_bounds(l, ae + 1, n);
            }
        }
    }
}

/// The value and parameters of `name: value; params`: the value is
/// everything up to the first semicolon and must be non-empty, and the
/// rest of the line must be well-formed parameters
pub open spec fn params_header_value(l: Seq<u8>, n: int, name: Seq<u8>) -> Option<
    (Seq<u8>, ParameterModel),
> {
    if token_at(l, 0, n, name) {
        let i = name.len() as int;
        if i < n && l[i] == 58 && i + 1 < n && l[i + 1] == 32 {
            let v = first_nonspace(l, i + 1, n);
            let e = find_in(l, v, n, 59);
            if v < e {
                match parse_params_from(l, n, e) {
                    Some(ps) => Some((l.subrange(v, e), ps)),
                    None => None,
                }
            } else {
                None
            }
        } else {
            None
        }
    } else {
        None
    }
}

/// An unstructured header `key: value`: the key is every byte before the
/// first colon or space, and must be followed by a colon, at least one
/// space, and a non-empty value
pub open spec fn unstructured_header_value(l: Seq<u8>, n: int) -> Option<(Seq<u8>, Seq<u8>)> {
    let ke = key_run_end(l, 0, n);
    if 0 < ke && ke < n && l[ke] == 58 && ke + 1 < n && l[ke + 1] == 32 {
        let v = first_nonspace(l, ke + 1, n);
        if v < n {
            Some((l.subrange(0, ke), l.subrange(v, n)))
        } else {
            None
        }
    } else {
        None
    }
}

/// The whole header grammar: what [`header`] makes of one unfolded line
pub open spec fn parse_header_model(l: Seq<u8>) -> Option<HeaderModel> {
    if !wf_line(l) {
        None
    } else if l.len() == 2 {
        Some(HeaderModel::End)
    } else {
        let n = l.len() - 2;
        match params_header_value(l, n, content_type_name()) {
            Some(p) => Some(HeaderModel::ContentType { mime_type: p.0, parameters: p.1 }),
            None => match simple_header_value(l, n, from_name()) {
                Some(v) => Some(HeaderModel::From(v)),
                None => match simple_header_value(l, n, to_name()) {
                    Some(v) => Some(HeaderModel::To(v)),
                    None => match simple_header_value(l, n, subject_name()) {
                        Some(v) => Some(HeaderModel::Subject(v)),
                        None => match simple_header_value(l, n, sender_name()) {
                            Some(v) => Some(HeaderModel::Sender(v)),
                            None => match simple_header_value(l, n, reply_to_name()) {
                                Some(v) => Some(HeaderModel::ReplyTo(v)),
                                None => match simple_header_value(l, n, message_id_name()) {
                                    Some(v) => Some(HeaderModel::MessageId(v)),
                                    None => match simple_header_value(l, n, date_name()) {
                                        Some(v) => Some(HeaderModel::Date(v)),
                                        None => match params_header_value(
                                            l,
                                            n,
                                            content_disposition_name(),
                                        ) {
                                            Some(p) => Some(
                                                HeaderModel::ContentDisposition {
                                                    disposition_type: p.0,
                                                    parameters: p.1,
                                                },
                                            ),
                                            None => match simple_header_value(
                                                l,
                                                n,
                                                content_description_name(),
                                            ) {
                                                Some(v) => Some(HeaderModel::ContentDescription(v)),
                                                None => match unstructured_header_value(l, n) {
                                                    Some(kv) => Some(
                                                        HeaderModel::Unstructured(kv.0, kv.1),
                                                    ),
                                                    None => None,
                                                },
                                            },
                                        },
                                    },
                                },
                            },
                        },
                    },
                },
            },
        }
    }
}

//------ Executable helpers -------------------------------------------------------

/// Is `b` allowed in a parameter token?
fn token_byte(b: u8) -> (r: bool)
    ensures
        r == is_token_byte(b),
{
    b != 32 && b != 40 && b != 41 && b != 60 && b != 62 && b != 64 && b != 44 && b != 59 && b != 58
        && b != 92 && b != 34 && b != 47 && b != 91 && b != 93 && b != 63 && b != 61 && b != 13
        && b != 10
}

/// Find the end of the parameter token starting at `i`
fn token_run_exec(buf: &[u8], i: usize, end: usize) -> (k: usize)
    requires
        i <= end <= buf@.len(),
    ensures
        i <= k <= end,
        k as int == token_run_end(buf@, i as int, end as int),
{
    let mut j = i;
    while j < end && token_byte(buf[j])
        invariant
            i <= j <= end <= buf@.len(),
            token_run_end(buf@, i as int, end as int) == token_run_end(buf@, j as int, end as int),
        decreases end - j,
    {
        j = j + 1;
    }
    j
}

/// Find the end of the unstructured header key starting at `i`
fn key_run_exec(buf: &[u8], i: usize, end: usize) -> (k: usize)
    requires
        i <= end <= buf@.len(),
    ensures
        i <= k <= end,
        k as int == key_run_end(buf@, i as int, end as int),
{
    let mut j = i;
    while j < end && !(buf[j] == 58 || buf[j] == 32)
        invariant
            i <= j <= end <= buf@.len(),
            key_run_end(buf@, i as int, end as int) == key_run_end(buf@, j as int, end as int),
        decreases end - j,
    {
        j = j + 1;
    }
    j
}

/// Find the quote that closes a quoted string scanned from `i`
fn quote_close_exec(buf: &[u8], i: usize, end: usize) -> (k: usize)
    requires
        i <= end <= buf@.len(),
    ensures
        i <= k <= end,
        k as int == quote_close(buf@, i as int, end as int),
{
    let mut j = i;
    loop
        invariant
            i <= j <= end <= buf@.len(),
            quote_close(buf@, i as int, end as int) == quote_close(buf@, j as int, end as int),
        decreases end - j,
    {
        if j >= end {
            return end;
        }
        if buf[j] == 34 {
            return j;
        }
        if buf[j] == 92 {
            if end - j >= 2 {
                j = j + 2;
            } else {
                return end;
            }
        } else {
            j = j + 1;
        }
    }
}

/// Copy the quoted string `[i, e)` with its backslash escapes removed
fn unescape_exec(buf: &[u8], i: usize, e: usize) -> (v: Vec<u8>)
    requires
        i <= e <= buf@.len(),
    ensures
        v@ == unescape(buf@, i as int, e as int),
{
    let mut out: Vec<u8> = Vec::new();
    let mut j = i;
    while j < e
        invariant
            i <= j <= e <= buf@.len(),
            unescape(buf@, i as int, e as int) == out@ + unescape(buf@, j as int, e as int),
        decreases e - j,
    {
        let ghost j0 = j as int;
        if buf[j] == 92 && j + 1 < e {
            out.push(buf[j + 1]);
            j = j + 2;
        } else {
            out.push(buf[j]);
            j = j + 1;
        }
        proof {
            assert(unescape(buf@, i as int, e as int) =~= out@ + unescape(
                buf@,
                j as int,
                e as int,
            ));
        }
    }
    assert(unescape(buf@, j as int, e as int) =~= Seq::<u8>::empty());
    assert(out@ =~= unescape(buf@, i as int, e as int)) by {
        assert(out@ + Seq::<u8>::empty() =~= out@);
    };
    out
}

/// Parse the parameters from position `k0` to the end of the line
fn parse_params_exec(line: &[u8], n: usize, k0: usize) -> (r: Option<Vec<Parameter>>)
    requires
        k0 <= n,
        n + 2 == line@.len(),
    ensures
        match parse_params_from(line@, n as int, k0 as int) {
            Some(ps) => r matches Some(v) && params_model(v@) == ps,
            None => r is None,
        },
{
    let mut acc: Vec<Parameter> = Vec::new();
    let mut k = k0;
    loop
        invariant
            k0 <= k <= n,
            n + 2 == line@.len(),
            match parse_params_from(line@, n as int, k as int) {
                Some(rest) => parse_params_from(line@, n as int, k0 as int) == Some(
                    params_model(acc@) + rest,
                ),
                None => parse_params_from(line@, n as int, k0 as int) is None,
            },
        decreases n - k,
    {
        if k == n {
            proof {
                assert(params_model(acc@) + Seq::empty() =~= params_model(acc@));
            }
            return Some(acc);
        }
        if !(line[k] == 59 && k + 1 < n && line[k + 1] == 32) {
            return None;
        }
        let a = nonspace_from(line, k + 1, n);
        let ae = token_run_exec(line, a, n);
        if !(a < ae && ae < n && line[ae] == 61) {
            return None;
        }
        let ghost acc0 = params_model(acc@);
        if ae + 1 < n && line[ae + 1] == 34 {
            let qe = quote_close_exec(line, ae + 2, n);
            if !(qe < n) {
                return None;
            }
            let attribute = slice_to_vec(slice_subrange(line, a, ae));
            let value = unescape_exec(line, ae + 2, qe);
            acc.push((attribute, value));
            proof {
                assert(params_model(acc@) =~= acc0 + seq![
                    (line@.subrange(a as int, ae as int), unescape(line@, ae + 2, qe as int)),
                ]);
            }
            let knext = qe + 1;
            proof {
                if parse_params_from(line@, n as int, knext as int) is Some {
                    let rest = parse_params_from(line@, n as int, knext as int).unwrap();
                    assert(params_model(acc@) + rest =~= acc0 + (seq![
                        (line@.subrange(a as int, ae as int), unescape(line@, ae + 2, qe as int)),
                    ] + rest));
                }
            }
            k = knext;
        } else {
            let ve = token_run_exec(line, ae + 1, n);
            if !(ve > ae + 1) {
                return None;
            }
            let attribute = slice_to_vec(slice_subrange(line, a, ae));
            let value = slice_to_vec(slice_subrange(line, ae + 1, ve));
            acc.push((attribute, value));
            proof {
                assert(params_model(acc@) =~= acc0 + seq![
                    (line@.subrange(a as int, ae as int), line@.subrange(ae + 1, ve as int)),
                ]);
            }
            proof {
                if parse_params_from(line@, n as int, ve as int) is Some {
                    let rest = parse_params_from(line@, n as int, ve as int).unwrap();
                    assert(params_model(acc@) + rest =~= acc0 + (seq![
                        (line@.subrange(a as int, ae as int), line@.subrange(ae + 1, ve as int)),
                    ] + rest));
                }
            }
            k = ve;
        }
    }
}

/// Parse a typed header `name: value` and return its value
fn simple_header(line: &[u8], n: usize, name: &[u8]) -> (r: Option<Vec<u8>>)
    requires
        n + 2 == line@.len(),
    ensures
        match simple_header_value(line@, n as int, name@) {
            Some(v) => r matches Some(out) && out@ == v,
            None => r is None,
        },
{
    if !prefix_nocase(line, 0, n, name) {
        return None;
    }
    let i = name.len();
    if !(i < n && line[i] == 58 && i + 1 < n && line[i + 1] == 32) {
        return None;
    }
    let v = nonspace_from(line, i + 1, n);
    if v < n {
        Some(slice_to_vec(slice_subrange(line, v, n)))
    } else {
        None
    }
}

/// Parse `name: value; params` and return the value and its parameters
fn params_header(line: &[u8], n: usize, name: &[u8]) -> (r: Option<(Vec<u8>, Vec<Parameter>)>)
    requires
        n + 2 == line@.len(),
    ensures
        match params_header_value(line@, n as int, name@) {
            Some(p) => r matches Some(out) && out.0@ == p.0 && params_model(out.1@) == p.1,
            None => r is None,
        },
{
    if !prefix_nocase(line, 0, n, name) {
        return None;
    }
    let i = name.len();
    if !(i < n && line[i] == 58 && i + 1 < n && line[i + 1] == 32) {
        return None;
    }
    let v = nonspace_from(line, i + 1, n);
    let e = find_byte(line, v, n, 59);
    if !(v < e) {
        return None;
    }
    match parse_params_exec(line, n, e) {
        Some(ps) => Some((slice_to_vec(slice_subrange(line, v, e)), ps)),
        None => None,
    }
}

//------ The parser ----------------------------------------------------------------

/// Parse one unfolded header line, including its trailing CRLF
pub fn header(line: &[u8]) -> (r: Option<Header>)
    ensures
        match parse_header_model(line@) {
            Some(h) => r matches Some(out) && out@ == h,
            None => r is None,
        },
{
    if !check_wf_line(line) {
        return None;
    }
    if line.len() == 2 {
        return Some(Header::End);
    }
    let n = line.len() - 2;
    let content_type_pat: [u8; 12] = [99, 111, 110, 116, 101, 110, 116, 45, 116, 121, 112, 101];
    assert(content_type_pat@ =~= content_type_name());
    if let Some((mime_type, parameters)) = params_header(line, n, content_type_pat.as_slice()) {
        return Some(Header::ContentType { mime_type, parameters });
    }
    let from_pat: [u8; 4] = [102, 114, 111, 109];
    assert(from_pat@ =~= from_name());
    if let Some(v) = simple_header(line, n, from_pat.as_slice()) {
        return Some(Header::From(v));
    }
    let to_pat: [u8; 2] = [116, 111];
    assert(to_pat@ =~= to_name());
    if let Some(v) = simple_header(line, n, to_pat.as_slice()) {
        return Some(Header::To(v));
    }
    let subject_pat: [u8; 7] = [115, 117, 98, 106, 101, 99, 116];
    assert(subject_pat@ =~= subject_name());
    if let Some(v) = simple_header(line, n, subject_pat.as_slice()) {
        return Some(Header::Subject(v));
    }
    let sender_pat: [u8; 6] = [115, 101, 110, 100, 101, 114];
    assert(sender_pat@ =~= sender_name());
    if let Some(v) = simple_header(line, n, sender_pat.as_slice()) {
        return Some(Header::Sender(v));
    }
    let reply_to_pat: [u8; 8] = [114, 101, 112, 108, 121, 45, 116, 111];
    assert(reply_to_pat@ =~= reply_to_name());
    if let Some(v) = simple_header(line, n, reply_to_pat.as_slice()) {
        return Some(Header::ReplyTo(v));
    }
    let message_id_pat: [u8; 10] = [109, 101, 115, 115, 97, 103, 101, 45, 105, 100];
    assert(message_id_pat@ =~= message_id_name());
    if let Some(v) = simple_header(line, n, message_id_pat.as_slice()) {
        return Some(Header::MessageId(v));
    }
    let date_pat: [u8; 4] = [100, 97, 116, 101];
    assert(date_pat@ =~= date_name());
    if let Some(v) = simple_header(line, n, date_pat.as_slice()) {
        return Some(Header::Date(v));
    }
    let content_disposition_pat: [u8; 19] = [
        99, 111, 110, 116, 101, 110, 116, 45, 100, 105, 115, 112, 111, 115, 105, 116, 105, 111,
        110,
    ];
    assert(content_disposition_pat@ =~= content_disposition_name());
    if let Some((disposition_type, parameters)) = params_header(
        line,
        n,
        content_disposition_pat.as_slice(),
    ) {
        return Some(Header::ContentDisposition { disposition_type, parameters });
    }
    let content_description_pat: [u8; 19] = [
        99, 111, 110, 116, 101, 110, 116, 45, 100, 101, 115, 99, 114, 105, 112, 116, 105, 111,
        110,
    ];
    assert(content_description_pat@ =~= content_description_name());
    if let Some(v) = simple_header(line, n, content_description_pat.as_slice()) {
        return Some(Header::ContentDescription(v));
    }
    let ke = key_run_exec(line, 0, n);
    if 0 < ke && ke < n && line[ke] == 58 && ke + 1 < n && line[ke + 1] == 32 {
        let v = nonspace_from(line, ke + 1, n);
        if v < n {
            let key = slice_to_vec(slice_subrange(line, 0, ke));
            let value = slice_to_vec(slice_subrange(line, v, n));
            return Some(Header::Unstructured(key, value));
        }
    }
    None
}

} // verus!
