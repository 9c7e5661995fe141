//! The SMTP line parser: one complete CRLF-terminated client line in, one
//! typed [`Cmd`] out, or a typed error response (502 when a recognised verb
//! misses its parameter, 500 for anything else the grammar refuses).
//!
//! The grammar is stated by [`spec_parse`]: verbs are matched case
//! insensitively, exactly the verbs HELO, EHLO, MAIL, RCPT, DATA, RSET,
//! NOOP, VRFY, QUIT, STARTTLS and AUTH are known, `MAIL FROM:` and
//! `RCPT TO:` accept an optional single space after the colon, `MAIL`
//! accepts a trailing `BODY=8BITMIME` / `BODY=7BIT` parameter, and `AUTH`
//! accepts an optional base64 initial response after the mechanism.

use vstd::prelude::*;

use base64::Engine;

verus! {

use crate::cmd::{Cmd, CmdModel, Credentials, CredentialsModel};
use crate::response::{Response, missing_parameter_model, syntax_error_model};
use vstd::slice::{slice_subrange, slice_to_vec};

//------ Byte classes ----------------------------------------------------------

/// ASCII upper-case letters folded to lower case; all other bytes unchanged
pub open spec fn lower(b: u8) -> u8 {
    if 65 <= b && b <= 90 {
        (b + 32) as u8
    } else {
        b
    }
}

/// The classes of bytes the grammar distinguishes
#[derive(Clone, Copy)]
pub enum ByteClass {
    /// Printable ASCII: allowed in a HELO/EHLO domain
    Domain,
    /// Printable ASCII without angle brackets: allowed in a mail path
    Path,
    /// The base64 alphabet with padding
    Base64,
}

/// Does byte `b` belong to class `c`?
pub open spec fn in_class(c: ByteClass, b: u8) -> bool {
    match c {
        ByteClass::Domain => 33 <= b <= 126,
        ByteClass::Path => 33 <= b <= 126 && b != 60 && b != 62,
        ByteClass::Base64 => (48 <= b <= 57) || (65 <= b <= 90) || (97 <= b <= 122) || b == 43
            || b == 47 || b == 61,
    }
}

/// Every byte of `s` in `[from, to)` belongs to class `c`
pub open spec fn bytes_in(s: Seq<u8>, from: int, to: int, c: ByteClass) -> bool {
    forall|i: int| from <= i < to ==> in_class(c, s[i])
}

//------ Positions -------------------------------------------------------------

/// The first position in `[i, end)` holding byte `t`, or `end`
pub open spec fn find_in(s: Seq<u8>, i: int, end: int, t: u8) -> int
    decreases end - i,
{
    if i < 0 || i >= end {
        end
    } else if s[i] == t {
        i
    } else {
        find_in(s, i + 1, end, t)
    }
}

/// The first position in `[i, end)` holding a byte other than space, or `end`
pub open spec fn first_nonspace(s: Seq<u8>, i: int, end: int) -> int
    decreases end - i,
{
    if i < 0 || i >= end {
        end
    } else if s[i] != 32 {
        i
    } else {
        first_nonspace(s, i + 1, end)
    }
}

//------ Tokens ----------------------------------------------------------------

/// The bytes `[a, b)` of `s` spell `p`, ASCII-case-insensitively
pub open spec fn token_is(s: Seq<u8>, a: int, b: int, p: Seq<u8>) -> bool {
    &&& 0 <= a <= b <= s.len()
    &&& b - a == p.len()
    &&& forall|k: int| 0 <= k < p.len() ==> lower(s[a + k]) == lower(p[k])
}

/// `p` occurs at position `i` of `s`, ASCII-case-insensitively, within `[i, end)`
pub open spec fn token_at(s: Seq<u8>, i: int, end: int, p: Seq<u8>) -> bool {
    &&& 0 <= i && i + p.len() <= end <= s.len()
    &&& forall|k: int| 0 <= k < p.len() ==> lower(s[i + k]) == lower(p[k])
}

pub open spec fn helo_token() -> Seq<u8> {
    seq![104u8, 101u8, 108u8, 111u8]  // "helo"
}

pub open spec fn ehlo_token() -> Seq<u8> {
    seq![101u8, 104u8, 108u8, 111u8]  // "ehlo"
}

pub open spec fn mail_token() -> Seq<u8> {
    seq![109u8, 97u8, 105u8, 108u8]  // "mail"
}

pub open spec fn rcpt_token() -> Seq<u8> {
    seq![114u8, 99u8, 112u8, 116u8]  // "rcpt"
}

pub open spec fn data_token() -> Seq<u8> {
    seq![100u8, 97u8, 116u8, 97u8]  // "data"
}

pub open spec fn rset_token() -> Seq<u8> {
    seq![114u8, 115u8, 101u8, 116u8]  // "rset"
}

pub open spec fn noop_token() -> Seq<u8> {
    seq![110u8, 111u8, 111u8, 112u8]  // "noop"
}

pub open spec fn quit_token() -> Seq<u8> {
    seq![113u8, 117u8, 105u8, 116u8]  // "quit"
}

pub open spec fn vrfy_token() -> Seq<u8> {
    seq![118u8, 114u8, 102u8, 121u8]  // "vrfy"
}

pub open spec fn auth_token() -> Seq<u8> {
    seq![97u8, 117u8, 116u8, 104u8]  // "auth"
}

pub open spec fn starttls_token() -> Seq<u8> {
    seq![115u8, 116u8, 97u8, 114u8, 116u8, 116u8, 108u8, 115u8]  // "starttls"
}

pub open spec fn from_colon_token() -> Seq<u8> {
    seq![102u8, 114u8, 111u8, 109u8, 58u8]  // "from:"
}

pub open spec fn to_colon_token() -> Seq<u8> {
    seq![116u8, 111u8, 58u8]  // "to:"
}

pub open spec fn body_eq_token() -> Seq<u8> {
    seq![98u8, 111u8, 100u8, 121u8, 61u8]  // "body="
}

pub open spec fn eight_bit_mime_token() -> Seq<u8> {
    seq![56u8, 98u8, 105u8, 116u8, 109u8, 105u8, 109u8, 101u8]  // "8bitmime"
}

pub open spec fn seven_bit_token() -> Seq<u8> {
    seq![55u8, 98u8, 105u8, 116u8]  // "7bit"
}

pub open spec fn plain_token() -> Seq<u8> {
    seq![112u8, 108u8, 97u8, 105u8, 110u8]  // "plain"
}

pub open spec fn login_token() -> Seq<u8> {
    seq![108u8, 111u8, 103u8, 105u8, 110u8]  // "login"
}

//------ Base64 and SASL PLAIN ---------------------------------------------------

/// What base64's standard-alphabet decoder returns for the given bytes:
/// `None` where the bytes are not a valid encoding. The result depends on
/// the bytes alone.
pub uninterp spec fn base64_decoded(s: Seq<u8>) -> Option<Seq<u8>>;

/// The NUL-terminated field of `d` starting at position `i`
pub open spec fn nul_field(d: Seq<u8>, i: int) -> Seq<u8> {
    d.subrange(i, find_in(d, i, d.len() as int, 0))
}

/// The position just after the NUL that terminates the field at `i`,
/// or the end of `d` if that field is unterminated
pub open spec fn next_start(d: Seq<u8>, i: int) -> int {
    let e = find_in(d, i, d.len() as int, 0);
    if e < d.len() {
        e + 1
    } else {
        e
    }
}

/// The three NUL-separated fields `authzid \0 authnid \0 password` of a
/// decoded SASL PLAIN initial response; absent fields are empty, and a
/// failed decode gives three empty fields
pub open spec fn sasl_plain_fields(dec: Option<Seq<u8>>) -> CredentialsModel {
    match dec {
        None => CredentialsModel {
            authorization_id: seq![],
            authentication_id: seq![],
            password: seq![],
        },
        Some(d) => {
            let i1 = next_start(d, 0);
            let i2 = next_start(d, i1);
            CredentialsModel {
                authorization_id: nul_field(d, 0),
                authentication_id: nul_field(d, i1),
                password: nul_field(d, i2),
            }
        },
    }
}

/// The decoded base64 token, or empty bytes where decoding fails
pub open spec fn decoded_or_empty(tok: Seq<u8>) -> Seq<u8> {
    match base64_decoded(tok) {
        Some(d) => d,
        None => seq![],
    }
}

//------ The grammar -------------------------------------------------------------

/// A complete line: it ends with CRLF and holds no other CR or LF byte
pub open spec fn wf_line(l: Seq<u8>) -> bool {
    &&& l.len() >= 2
    &&& l[l.len() - 2] == 13
    &&& l[l.len() - 1] == 10
    &&& forall|i: int| 0 <= i < l.len() - 2 ==> l[i] != 13 && l[i] != 10
}

/// What the parser makes of one client line
pub enum LineParse {
    /// A syntactically valid command
    Command(CmdModel),
    /// A recognised verb without its required parameter: 502
    Missing,
    /// Anything else the grammar refuses: 500
    Malformed,
}

/// HELO/EHLO arguments: one or more spaces, then a non-empty domain that
/// runs to the end of the line
pub open spec fn parse_domain_cmd(l: Seq<u8>, n: int, sp: int, is_ehlo: bool) -> LineParse {
    if sp >= n {
        LineParse::Missing
    } else {
        let d = first_nonspace(l, sp, n);
        if d >= n {
            LineParse::Missing
        } else if bytes_in(l, d, n, ByteClass::Domain) {
            if is_ehlo {
                LineParse::Command(CmdModel::Ehlo { domain: l.subrange(d, n) })
            } else {
                LineParse::Command(CmdModel::Helo { domain: l.subrange(d, n) })
            }
        } else {
            LineParse::Malformed
        }
    }
}

/// The optional `BODY=` extension parameter after the reverse path: nothing,
/// or spaces followed by `BODY=8BITMIME` or `BODY=7BIT` ending the line
pub open spec fn parse_mail_tail(l: Seq<u8>, n: int, k: int, path: Seq<u8>) -> LineParse {
    if k == n {
        LineParse::Command(CmdModel::Mail { reverse_path: path, is8bit: false })
    } else if l[k] == 32 {
        let m = first_nonspace(l, k, n);
        if token_at(l, m, n, body_eq_token()) {
            let v = m + 5;
            if token_is(l, v, n, eight_bit_mime_token()) {
                LineParse::Command(CmdModel::Mail { reverse_path: path, is8bit: true })
            } else if token_is(l, v, n, seven_bit_token()) {
                LineParse::Command(CmdModel::Mail { reverse_path: path, is8bit: false })
            } else {
                LineParse::Malformed
            }
        } else {
            LineParse::Malformed
        }
    } else {
        LineParse::Malformed
    }
}

/// MAIL arguments: `FROM:`, an optional single space, `<`, a possibly empty
/// reverse path (bounce messages carry `<>`), `>`, then the optional BODY
/// parameter
pub open spec fn parse_mail_cmd(l: Seq<u8>, n: int, sp: int) -> LineParse {
    if sp >= n {
        LineParse::Missing
    } else {
        let f = first_nonspace(l, sp, n);
        if f >= n {
            LineParse::Missing
        } else if token_at(l, f, n, from_colon_token()) {
            let g = f + 5;
            let h = if g < n && l[g] == 32 {
                g + 1
            } else {
                g
            };
            if h < n && l[h] == 60 {
                let e = find_in(l, h + 1, n, 62);
                if e >= n {
                    LineParse::Malformed
                } else if bytes_in(l, h + 1, e, ByteClass::Path) {
                    parse_mail_tail(l, n, e + 1, l.subrange(h + 1, e))
                } else {
                    LineParse::Malformed
                }
            } else {
                LineParse::Malformed
            }
        } else {
            LineParse::Malformed
        }
    }
}

/// RCPT arguments: `TO:`, an optional single space, `<`, a non-empty
/// forward path, `>` ending the line
pub open spec fn parse_rcpt_cmd(l: Seq<u8>, n: int, sp: int) -> LineParse {
    if sp >= n {
        LineParse::Missing
    } else {
        let f = first_nonspace(l, sp, n);
        if f >= n {
            LineParse::Missing
        } else if token_at(l, f, n, to_colon_token()) {
            let g = f + 3;
            let h = if g < n && l[g] == 32 {
                g + 1
            } else {
                g
            };
            if h < n && l[h] == 60 {
                let e = find_in(l, h + 1, n, 62);
                if e >= n || e == h + 1 {
                    LineParse::Malformed
                } else if bytes_in(l, h + 1, e, ByteClass::Path) && e + 1 == n {
                    LineParse::Command(CmdModel::Rcpt { forward_path: l.subrange(h + 1, e) })
                } else {
                    LineParse::Malformed
                }
            } else {
                LineParse::Malformed
            }
        } else {
            LineParse::Malformed
        }
    }
}

/// AUTH arguments: the mechanism `PLAIN` or `LOGIN`, optionally followed by
/// a base64 initial response
pub open spec fn parse_auth_cmd(l: Seq<u8>, n: int, sp: int) -> LineParse {
    if sp >= n {
        LineParse::Missing
    } else {
        let f = first_nonspace(l, sp, n);
        if f >= n {
            LineParse::Missing
        } else if token_at(l, f, n, plain_token()) {
            let g = f + 5;
            if g == n {
                LineParse::Command(CmdModel::AuthPlainEmpty)
            } else if l[g] == 32 {
                let m = first_nonspace(l, g, n);
                if m >= n {
                    LineParse::Malformed
                } else if bytes_in(l, m, n, ByteClass::Base64) {
                    let c = sasl_plain_fields(base64_decoded(l.subrange(m, n)));
                    LineParse::Command(
                        CmdModel::AuthPlain {
                            authorization_id: c.authorization_id,
                            authentication_id: c.authentication_id,
                            password: c.password,
                        },
                    )
                } else {
                    LineParse::Malformed
                }
            } else {
                LineParse::Malformed
            }
        } else if token_at(l, f, n, login_token()) {
            let g = f + 5;
            if g == n {
                LineParse::Command(CmdModel::AuthLoginEmpty)
            } else if l[g] == 32 {
                let m = first_nonspace(l, g, n);
                if m >= n {
                    LineParse::Malformed
                } else if bytes_in(l, m, n, ByteClass::Base64) {
                    LineParse::Command(
                        CmdModel::AuthLogin { username: decoded_or_empty(l.subrange(m, n)) },
                    )
                } else {
                    LineParse::Malformed
                }
            } else {
                LineParse::Malformed
            }
        } else {
            LineParse::Malformed
        }
    }
}

/// VRFY arguments: anything non-empty; the server never verifies, so the
/// argument is dropped
pub open spec fn parse_vrfy_cmd(l: Seq<u8>, n: int, sp: int) -> LineParse {
    if sp >= n {
        LineParse::Missing
    } else {
        let f = first_nonspace(l, sp, n);
        if f >= n {
            LineParse::Missing
        } else {
            LineParse::Command(CmdModel::Vrfy)
        }
    }
}

/// The whole grammar: what [`parse`] makes of the line `l`
pub open spec fn spec_parse(l: Seq<u8>) -> LineParse {
    if !wf_line(l) {
        LineParse::Malformed
    } else {
        let n = l.len() - 2;
        let sp = find_in(l, 0, n, 32);
        if token_is(l, 0, sp, helo_token()) {
            parse_domain_cmd(l, n, sp, false)
        } else if token_is(l, 0, sp, ehlo_token()) {
            parse_domain_cmd(l, n, sp, true)
        } else if token_is(l, 0, sp, mail_token()) {
            parse_mail_cmd(l, n, sp)
        } else if token_is(l, 0, sp, rcpt_token()) {
            parse_rcpt_cmd(l, n, sp)
        } else if token_is(l, 0, sp, auth_token()) {
            parse_auth_cmd(l, n, sp)
        } else if token_is(l, 0, sp, vrfy_token()) {
            parse_vrfy_cmd(l, n, sp)
        } else if sp == n && token_is(l, 0, sp, data_token()) {
            LineParse::Command(CmdModel::Data)
        } else if sp == n && token_is(l, 0, sp, rset_token()) {
            LineParse::Command(CmdModel::Rset)
        } else if sp == n && token_is(l, 0, sp, noop_token()) {
            LineParse::Command(CmdModel::Noop)
        } else if sp == n && token_is(l, 0, sp, quit_token()) {
            LineParse::Command(CmdModel::Quit)
        } else if sp == n && token_is(l, 0, sp, starttls_token()) {
            LineParse::Command(CmdModel::StartTls)
        } else {
            LineParse::Malformed
        }
    }
}

/// What [`parse_auth_response`] makes of one continuation line: the raw
/// base64 bytes up to the CRLF, or nothing where the line is not base64
pub open spec fn spec_auth_response(l: Seq<u8>) -> Option<Seq<u8>> {
    if wf_line(l) && l.len() > 2 && bytes_in(l, 0, l.len() - 2, ByteClass::Base64) {
        Some(l.subrange(0, l.len() - 2))
    } else {
        None
    }
}

/// Does the parse result `r` return what the grammar `p` prescribes?
pub open spec fn result_matches(r: Result<Cmd, Response>, p: LineParse) -> bool {
    match p {
        LineParse::Command(c) => r matches Ok(cmd) && cmd@ == c,
        LineParse::Missing => r matches Err(resp) && resp@ == missing_parameter_model(),
        LineParse::Malformed => r matches Err(resp) && resp@ == syntax_error_model(),
    }
}

//------ Trusted base64 decoding -------------------------------------------------

/// Relies on the base64 crate's standard-alphabet decoder: the result is a
/// function of the input bytes alone, and decoding fails exactly where the
/// bytes are not a valid standard encoding.
#[verifier::external_body]
fn decode_base64(param: &[u8]) -> (r: Option<Vec<u8>>)
    ensures
        match r {
            Some(v) => base64_decoded(param@) == Some(v@),
            None => base64_decoded(param@) is None,
        },
{
    base64::engine::general_purpose::STANDARD.decode(param).ok()
}

//------ Executable helpers -------------------------------------------------------

/// Fold one ASCII byte to lower case
pub(crate) fn lower_byte(b: u8) -> (r: u8)
    ensures
        r == lower(b),
{
    if 65 <= b && b <= 90 {
        b + 32
    } else {
        b
    }
}

pub(crate) proof fn lemma_find_in(s: Seq<u8>, i: int, end: int, t: u8, k: int)
    requires
        0 <= i <= k <= end <= s.len(),
        forall|j: int| i <= j < k ==> s[j] != t,
        k < end ==> s[k] == t,
    ensures
        find_in(s, i, end, t) == k,
    decreases k - i,
{
    if i < k {
        lemma_find_in(s, i + 1, end, t, k);
    }
}

pub(crate) proof fn lemma_first_nonspace(s: Seq<u8>, i: int, end: int, k: int)
    requires
        0 <= i <= k <= end <= s.len(),
        forall|j: int| i <= j < k ==> s[j] == 32,
        k < end ==> s[k] != 32,
    ensures
        first_nonspace(s, i, end) == k,
    decreases k - i,
{
    if i < k {
        lemma_first_nonspace(s, i + 1, end, k);
    }
}

pub(crate) proof fn lemma_first_nonspace_bounds(s: Seq<u8>, i: int, end: int)
    requires
        0 <= i <= end <= s.len(),
    ensures
        i <= first_nonspace(s, i, end) <= end,
    decreases end - i,
{
    if i < end && s[i] == 32 {
        lemma_first_nonspace_bounds(s, i + 1, end);
    }
}

/// Find the first occurrence of `t` in `buf[start..end]`, or return `end`
pub(crate) fn find_byte(buf: &[u8], start: usize, end: usize, t: u8) -> (k: usize)
    requires
        start <= end <= buf@.len(),
    ensures
        start <= k <= end,
        k as int == find_in(buf@, start as int, end as int, t),
{
    let mut i = start;
    while i < end && buf[i] != t
        invariant
            start <= i <= end <= buf@.len(),
            forall|j: int| start <= j < i ==> buf@[j] != t,
        decreases end - i,
    {
        i = i + 1;
    }
    proof {
        lemma_find_in(buf@, start as int, end as int, t, i as int);
    }
    i
}

/// Find the first byte in `buf[start..end]` that is not a space, or return `end`
pub(crate) fn nonspace_from(buf: &[u8], start: usize, end: usize) -> (k: usize)
    requires
        start <= end <= buf@.len(),
    ensures
        start <= k <= end,
        k as int == first_nonspace(buf@, start as int, end as int),
{
    let mut i = start;
    while i < end && buf[i] == 32
        invariant
            start <= i <= end <= buf@.len(),
            forall|j: int| start <= j < i ==> buf@[j] == 32,
        decreases end - i,
    {
        i = i + 1;
    }
    proof {
        lemma_first_nonspace(buf@, start as int, end as int, i as int);
    }
    i
}

/// Do the bytes `buf[a..b]` spell `pat`, case insensitively?
pub(crate) fn region_eq_nocase(buf: &[u8], a: usize, b: usize, pat: &[u8]) -> (r: bool)
    requires
        a <= b <= buf@.len(),
    ensures
        r == token_is(buf@, a as int, b as int, pat@),
{
    if b - a != pat.len() {
        return false;
    }
    let mut k: usize = 0;
    while k < pat.len()
        invariant
            a <= b <= buf@.len(),
            b - a == pat@.len(),
            k <= pat@.len(),
            forall|j: int| 0 <= j < k ==> lower(buf@[a + j]) == lower(pat@[j]),
        decreases pat@.len() - k,
    {
        if lower_byte(buf[a + k]) != lower_byte(pat[k]) {
            return false;
        }
        k = k + 1;
    }
    true
}

/// Does `pat` occur at position `i` of `buf`, entirely within `buf[..end]`?
pub(crate) fn prefix_nocase(buf: &[u8], i: usize, end: usize, pat: &[u8]) -> (r: bool)
    requires
        i <= end <= buf@.len(),
    ensures
        r == token_at(buf@, i as int, end as int, pat@),
{
    if end - i < pat.len() {
        return false;
    }
    let mut k: usize = 0;
    while k < pat.len()
        invariant
            i <= end <= buf@.len(),
            pat@.len() <= end - i,
            k <= pat@.len(),
            forall|j: int| 0 <= j < k ==> lower(buf@[i + j]) == lower(pat@[j]),
        decreases pat@.len() - k,
    {
        if lower_byte(buf[i + k]) != lower_byte(pat[k]) {
            return false;
        }
        k = k + 1;
    }
    true
}

/// Is `b` in the byte class `c`?
fn byte_in_class(c: ByteClass, b: u8) -> (r: bool)
    ensures
        r == in_class(c, b),
{
    match c {
        ByteClass::Domain => 33 <= b && b <= 126,
        ByteClass::Path => 33 <= b && b <= 126 && b != 60 && b != 62,
        ByteClass::Base64 => (48 <= b && b <= 57) || (65 <= b && b <= 90) || (97 <= b && b <= 122)
            || b == 43 || b == 47 || b == 61,
    }
}

/// Are all bytes of `buf[from..to]` in the byte class `c`?
fn all_in_class(buf: &[u8], from: usize, to: usize, c: ByteClass) -> (r: bool)
    requires
        from <= to <= buf@.len(),
    ensures
        r == bytes_in(buf@, from as int, to as int, c),
{
    let mut i = from;
    while i < to
        invariant
            from <= i <= to <= buf@.len(),
            forall|j: int| from <= j < i ==> in_class(c, buf@[j]),
        decreases to - i,
    {
        if !byte_in_class(c, buf[i]) {
            return false;
        }
        i = i + 1;
    }
    true
}

/// Is `line` a complete line: CRLF at the end and nowhere else?
pub(crate) fn check_wf_line(line: &[u8]) -> (r: bool)
    ensures
        r == wf_line(line@),
{
    let len = line.len();
    if len < 2 {
        return false;
    }
    if !(line[len - 2] == 13 && line[len - 1] == 10) {
        return false;
    }
    let mut i: usize = 0;
    while i < len - 2
        invariant
            i <= len - 2,
            len == line@.len(),
            2 <= len,
            forall|j: int| 0 <= j < i ==> line@[j] != 13 && line@[j] != 10,
        decreases len - 2 - i,
    {
        if line[i] == 13 || line[i] == 10 {
            return false;
        }
        i = i + 1;
    }
    true
}

//------ The parser ---------------------------------------------------------------

/// Parse a line from the client
pub fn parse(line: &[u8]) -> (r: Result<Cmd, Response>)
    ensures
        result_matches(r, spec_parse(line@)),
{
    if !check_wf_line(line) {
        return Err(Response::syntax_error());
    }
    let n = line.len() - 2;
    let sp = find_byte(line, 0, n, 32);
    let helo_pat: [u8; 4] = [104, 101, 108, 111];
    let ehlo_pat: [u8; 4] = [101, 104, 108, 111];
    let mail_pat: [u8; 4] = [109, 97, 105, 108];
    let rcpt_pat: [u8; 4] = [114, 99, 112, 116];
    let auth_pat: [u8; 4] = [97, 117, 116, 104];
    let vrfy_pat: [u8; 4] = [118, 114, 102, 121];
    let data_pat: [u8; 4] = [100, 97, 116, 97];
    let rset_pat: [u8; 4] = [114, 115, 101, 116];
    let noop_pat: [u8; 4] = [110, 111, 111, 112];
    let quit_pat: [u8; 4] = [113, 117, 105, 116];
    let starttls_pat: [u8; 8] = [115, 116, 97, 114, 116, 116, 108, 115];
    if region_eq_nocase(line, 0, sp, helo_pat.as_slice()) {
        assert(helo_pat@ =~= helo_token());
        parse_domain_args(line, n, sp, false)
    } else if region_eq_nocase(line, 0, sp, ehlo_pat.as_slice()) {
        assert(ehlo_pat@ =~= ehlo_token());
        parse_domain_args(line, n, sp, true)
    } else if region_eq_nocase(line, 0, sp, mail_pat.as_slice()) {
        assert(mail_pat@ =~= mail_token());
        parse_mail_args(line, n, sp)
    } else if region_eq_nocase(line, 0, sp, rcpt_pat.as_slice()) {
        assert(rcpt_pat@ =~= rcpt_token());
        parse_rcpt_args(line, n, sp)
    } else if region_eq_nocase(line, 0, sp, auth_pat.as_slice()) {
        assert(auth_pat@ =~= auth_token());
        parse_auth_args(line, n, sp)
    } else if region_eq_nocase(line, 0, sp, vrfy_pat.as_slice()) {
        assert(vrfy_pat@ =~= vrfy_token());
        parse_vrfy_args(line, n, sp)
    } else if sp == n && region_eq_nocase(line, 0, sp, data_pat.as_slice()) {
        assert(data_pat@ =~= data_token());
        Ok(Cmd::Data)
    } else if sp == n && region_eq_nocase(line, 0, sp, rset_pat.as_slice()) {
        assert(rset_pat@ =~= rset_token());
        Ok(Cmd::Rset)
    } else if sp == n && region_eq_nocase(line, 0, sp, noop_pat.as_slice()) {
        assert(noop_pat@ =~= noop_token());
        Ok(Cmd::Noop)
    } else if sp == n && region_eq_nocase(line, 0, sp, quit_pat.as_slice()) {
        assert(quit_pat@ =~= quit_token());
        Ok(Cmd::Quit)
    } else if sp == n && region_eq_nocase(line, 0, sp, starttls_pat.as_slice()) {
        assert(starttls_pat@ =~= starttls_token());
        Ok(Cmd::StartTls)
    } else {
        assert(starttls_pat@ =~= starttls_token());
        assert(helo_pat@ =~= helo_token());
        assert(ehlo_pat@ =~= ehlo_token());
        assert(mail_pat@ =~= mail_token());
        assert(rcpt_pat@ =~= rcpt_token());
        assert(auth_pat@ =~= auth_token());
        assert(vrfy_pat@ =~= vrfy_token());
        assert(data_pat@ =~= data_token());
        assert(rset_pat@ =~= rset_token());
        assert(noop_pat@ =~= noop_token());
        assert(quit_pat@ =~= quit_token());
        Err(Response::syntax_error())
    }
}

/// Parse the arguments of HELO or EHLO
fn parse_domain_args(line: &[u8], n: usize, sp: usize, is_ehlo: bool) -> (r: Result<Cmd, Response>)
    requires
        sp <= n,
        n as int == line@.len() - 2,
    ensures
        result_matches(r, parse_domain_cmd(line@, n as int, sp as int, is_ehlo)),
{
    if sp >= n {
        return Err(Response::missing_parameter());
    }
    let d = nonspace_from(line, sp, n);
    if d >= n {
        return Err(Response::missing_parameter());
    }
    if all_in_class(line, d, n, ByteClass::Domain) {
        let domain = slice_to_vec(slice_subrange(line, d, n));
        if is_ehlo {
            Ok(Cmd::Ehlo { domain })
        } else {
            Ok(Cmd::Helo { domain })
        }
    } else {
        Err(Response::syntax_error())
    }
}

/// Parse the arguments of MAIL
fn parse_mail_args(line: &[u8], n: usize, sp: usize) -> (r: Result<Cmd, Response>)
    requires
        sp <= n,
        n as int == line@.len() - 2,
    ensures
        result_matches(r, parse_mail_cmd(line@, n as int, sp as int)),
{
    if sp >= n {
        return Err(Response::missing_parameter());
    }
    let f = nonspace_from(line, sp, n);
    if f >= n {
        return Err(Response::missing_parameter());
    }
    let from_pat: [u8; 5] = [102, 114, 111, 109, 58];
    if !prefix_nocase(line, f, n, from_pat.as_slice()) {
        assert(from_pat@ =~= from_colon_token());
        return Err(Response::syntax_error());
    }
    assert(from_pat@ =~= from_colon_token());
    let g = f + 5;
    let h = if g < n && line[g] == 32 {
        g + 1
    } else {
        g
    };
    if !(h < n && line[h] == 60) {
        return Err(Response::syntax_error());
    }
    let e = find_byte(line, h + 1, n, 62);
    if e >= n {
        return Err(Response::syntax_error());
    }
    if !all_in_class(line, h + 1, e, ByteClass::Path) {
        return Err(Response::syntax_error());
    }
    let reverse_path = slice_to_vec(slice_subrange(line, h + 1, e));
    parse_mail_body_param(line, n, e + 1, reverse_path)
}

/// Parse the optional BODY parameter that may follow the reverse path
fn parse_mail_body_param(line: &[u8], n: usize, k: usize, reverse_path: Vec<u8>) -> (r: Result<
    Cmd,
    Response,
>)
    requires
        k <= n,
        n as int == line@.len() - 2,
    ensures
        result_matches(r, parse_mail_tail(line@, n as int, k as int, reverse_path@)),
{
    if k == n {
        return Ok(Cmd::Mail { reverse_path, is8bit: false });
    }
    if line[k] != 32 {
        return Err(Response::syntax_error());
    }
    let m = nonspace_from(line, k, n);
    let body_pat: [u8; 5] = [98, 111, 100, 121, 61];
    if !prefix_nocase(line, m, n, body_pat.as_slice()) {
        assert(body_pat@ =~= body_eq_token());
        return Err(Response::syntax_error());
    }
    assert(body_pat@ =~= body_eq_token());
    let v = m + 5;
    let eight_pat: [u8; 8] = [56, 98, 105, 116, 109, 105, 109, 101];
    let seven_pat: [u8; 4] = [55, 98, 105, 116];
    if region_eq_nocase(line, v, n, eight_pat.as_slice()) {
        assert(eight_pat@ =~= eight_bit_mime_token());
        Ok(Cmd::Mail { reverse_path, is8bit: true })
    } else if region_eq_nocase(line, v, n, seven_pat.as_slice()) {
        assert(eight_pat@ =~= eight_bit_mime_token());
        assert(seven_pat@ =~= seven_bit_token());
        Ok(Cmd::Mail { reverse_path, is8bit: false })
    } else {
        assert(eight_pat@ =~= eight_bit_mime_token());
        assert(seven_pat@ =~= seven_bit_token());
        Err(Response::syntax_error())
    }
}

/// Parse the arguments of RCPT
fn parse_rcpt_args(line: &[u8], n: usize, sp: usize) -> (r: Result<Cmd, Response>)
    requires
        sp <= n,
        n as int == line@.len() - 2,
    ensures
        result_matches(r, parse_rcpt_cmd(line@, n as int, sp as int)),
{
    if sp >= n {
        return Err(Response::missing_parameter());
    }
    let f = nonspace_from(line, sp, n);
    if f >= n {
        return Err(Response::missing_parameter());
    }
    let to_pat: [u8; 3] = [116, 111, 58];
    if !prefix_nocase(line, f, n, to_pat.as_slice()) {
        assert(to_pat@ =~= to_colon_token());
        return Err(Response::syntax_error());
    }
    assert(to_pat@ =~= to_colon_token());
    let g = f + 3;
    let h = if g < n && line[g] == 32 {
        g + 1
    } else {
        g
    };
    if !(h < n && line[h] == 60) {
        return Err(Response::syntax_error());
    }
    let e = find_byte(line, h + 1, n, 62);
    if e >= n || e == h + 1 {
        return Err(Response::syntax_error());
    }
    if all_in_class(line, h + 1, e, ByteClass::Path) && e + 1 == n {
        let forward_path = slice_to_vec(slice_subrange(line, h + 1, e));
        Ok(Cmd::Rcpt { forward_path })
    } else {
        Err(Response::syntax_error())
    }
}

/// Parse the arguments of AUTH
fn parse_auth_args(line: &[u8], n: usize, sp: usize) -> (r: Result<Cmd, Response>)
    requires
        sp <= n,
        n as int == line@.len() - 2,
    ensures
        result_matches(r, parse_auth_cmd(line@, n as int, sp as int)),
{
    if sp >= n {
        return Err(Response::missing_parameter());
    }
    let f = nonspace_from(line, sp, n);
    if f >= n {
        return Err(Response::missing_parameter());
    }
    let plain_pat: [u8; 5] = [112, 108, 97, 105, 110];
    let login_pat: [u8; 5] = [108, 111, 103, 105, 110];
    if prefix_nocase(line, f, n, plain_pat.as_slice()) {
        assert(plain_pat@ =~= plain_token());
        let g = f + 5;
        if g == n {
            return Ok(Cmd::AuthPlainEmpty);
        }
        if line[g] != 32 {
            return Err(Response::syntax_error());
        }
        let m = nonspace_from(line, g, n);
        if m >= n {
            return Err(Response::syntax_error());
        }
        if all_in_class(line, m, n, ByteClass::Base64) {
            let creds = decode_sasl_plain(slice_subrange(line, m, n));
            Ok(
                Cmd::AuthPlain {
                    authorization_id: creds.authorization_id,
                    authentication_id: creds.authentication_id,
                    password: creds.password,
                },
            )
        } else {
            Err(Response::syntax_error())
        }
    } else if prefix_nocase(line, f, n, login_pat.as_slice()) {
        assert(plain_pat@ =~= plain_token());
        assert(login_pat@ =~= login_token());
        let g = f + 5;
        if g == n {
            return Ok(Cmd::AuthLoginEmpty);
        }
        if line[g] != 32 {
            return Err(Response::syntax_error());
        }
        let m = nonspace_from(line, g, n);
        if m >= n {
            return Err(Response::syntax_error());
        }
        if all_in_class(line, m, n, ByteClass::Base64) {
            let username = decode_sasl_login(slice_subrange(line, m, n));
            Ok(Cmd::AuthLogin { username })
        } else {
            Err(Response::syntax_error())
        }
    } else {
        assert(plain_pat@ =~= plain_token());
        assert(login_pat@ =~= login_token());
        Err(Response::syntax_error())
    }
}

/// Parse the arguments of VRFY
fn parse_vrfy_args(line: &[u8], n: usize, sp: usize) -> (r: Result<Cmd, Response>)
    requires
        sp <= n,
        n as int == line@.len() - 2,
    ensures
        result_matches(r, parse_vrfy_cmd(line@, n as int, sp as int)),
{
    if sp >= n {
        return Err(Response::missing_parameter());
    }
    let f = nonspace_from(line, sp, n);
    if f >= n {
        return Err(Response::missing_parameter());
    }
    Ok(Cmd::Vrfy)
}

/// Parse an authentication response from the client
pub fn parse_auth_response(line: &[u8]) -> (r: Result<Vec<u8>, Response>)
    ensures
        match spec_auth_response(line@) {
            Some(s) => r matches Ok(v) && v@ == s,
            None => r matches Err(resp) && resp@ == syntax_error_model(),
        },
{
    if !check_wf_line(line) {
        return Err(Response::syntax_error());
    }
    let n = line.len() - 2;
    if n == 0 {
        return Err(Response::syntax_error());
    }
    if all_in_class(line, 0, n, ByteClass::Base64) {
        Ok(slice_to_vec(slice_subrange(line, 0, n)))
    } else {
        Err(Response::syntax_error())
    }
}

/// Decodes the base64 encoded plain authentication parameter
pub(crate) fn decode_sasl_plain(param: &[u8]) -> (c: Credentials)
    ensures
        c@ == sasl_plain_fields(base64_decoded(param@)),
{
    match decode_base64(param) {
        None => Credentials {
            authorization_id: Vec::new(),
            authentication_id: Vec::new(),
            password: Vec::new(),
        },
        Some(decoded) => {
            let d = decoded.as_slice();
            let len = d.len();
            let e1 = find_byte(d, 0, len, 0);
            let authorization_id = slice_to_vec(slice_subrange(d, 0, e1));
            let i1 = if e1 < len {
                e1 + 1
            } else {
                e1
            };
            let e2 = find_byte(d, i1, len, 0);
            let authentication_id = slice_to_vec(slice_subrange(d, i1, e2));
            let i2 = if e2 < len {
                e2 + 1
            } else {
                e2
            };
            let e3 = find_byte(d, i2, len, 0);
            let password = slice_to_vec(slice_subrange(d, i2, e3));
            Credentials { authorization_id, authentication_id, password }
        },
    }
}

/// Decodes a base64 encoded login authentication parameter (in login auth,
/// username and password are sent in separate lines)
pub(crate) fn decode_sasl_login(param: &[u8]) -> (v: Vec<u8>)
    ensures
        v@ == decoded_or_empty(param@),
{
    match decode_base64(param) {
        Some(decoded) => decoded,
        None => Vec::new(),
    }
}

} // verus!
