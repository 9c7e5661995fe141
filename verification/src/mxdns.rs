//! The DNS-driven policy checks a receiver runs at HELO time: reverse-IP
//! query-name construction, DNS name decoding, the combination rule for
//! parallel blocklist lookups, and the forward-confirmed reverse DNS
//! verdict. The embedder performs the UDP queries themselves and hands
//! the answers back as plain values.

use vstd::prelude::*;

verus! {

use crate::ip::IpAddress;

/// Possible failures of the DNS machinery. Each variant carries the query
/// or file it concerns, as raw bytes.
#[derive(Debug, Clone)]
pub enum Error {
    /// The DNS query could not be built
    DnsQuery(Vec<u8>),
    /// The local resolver configuration could not be read
    ResolvConfRead(Vec<u8>),
    /// The local resolver configuration could not be parsed
    ResolvConfParse(Vec<u8>),
    /// No nameservers are configured
    NoNameservers(Vec<u8>),
    /// The nameserver that serves a blocklist could not be found
    BlockListNameserver(Vec<u8>),
    /// The blocklist nameserver has no usable address
    BlockListNameserverIp(Vec<u8>),
    /// A blocklist lookup failed
    BlockListLookup(Vec<u8>),
    /// A reverse lookup failed
    Reverse(Vec<u8>),
    /// A DNS response could not be parsed
    ParseResponse(Vec<u8>),
    /// The response was truncated and retrying over TCP is unsupported
    TcpUnsupported(Vec<u8>),
    /// The answer section of the response was empty
    EmptyResponse(Vec<u8>),
    /// The query socket could not be bound
    Bind,
    /// The query socket could not be connected
    Connect(Vec<u8>),
    /// The query could not be sent
    Send(Vec<u8>),
    /// No response arrived in time
    Recv(Vec<u8>),
}

/// The result of a FCrDNS lookup
#[derive(Debug, Clone)]
pub enum FCrDNS {
    /// Reverse lookup failed
    NoReverse,
    /// Reverse lookup was successful but could not be forward confirmed
    UnConfirmed(Vec<u8>),
    /// The reverse lookup was forward confirmed
    Confirmed(Vec<u8>),
}

impl FCrDNS {
    /// Is the result a confirmed reverse dns value?
    pub fn is_confirmed(&self) -> (r: bool)
        ensures
            r == (self is Confirmed),
    {
        match self {
            FCrDNS::Confirmed(_) => true,
            _ => false,
        }
    }
}

//------ Reversed query names ----------------------------------------------------

/// The decimal digits of one octet
pub open spec fn dec_digits(b: u8) -> Seq<u8> {
    if b < 10 {
        seq![(48 + b) as u8]
    } else if b < 100 {
        seq![(48 + b / 10) as u8, (48 + b % 10) as u8]
    } else {
        seq![(48 + b / 100) as u8, (48 + b / 10 % 10) as u8, (48 + b % 10) as u8]
    }
}

/// The lower-case hex digit of one nibble value
pub open spec fn hex_digit(n: u8) -> u8 {
    if n < 10 {
        (48 + n) as u8
    } else {
        (87 + n) as u8
    }
}

/// The dot-separated nibble labels of the IPv6 octets from position `i`
/// down to the first octet: for each octet, low nibble first, then high,
/// so that the whole address reads back to front
pub open spec fn v6_labels(o: Seq<u8>, i: int) -> Seq<u8>
    decreases i,
{
    if i < 0 || i >= o.len() {
        seq![]
    } else if i == 0 {
        seq![hex_digit((o[i] % 16) as u8), 46u8, hex_digit((o[i] / 16) as u8)]
    } else {
        seq![hex_digit((o[i] % 16) as u8), 46u8, hex_digit((o[i] / 16) as u8), 46u8] + v6_labels(
            o,
            i - 1,
        )
    }
}

/// The reversed label form of an address: for IPv4 the octets in reverse
/// decimal, for IPv6 the 32 nibbles in reverse lower-case hex, each
/// separated by dots
pub open spec fn reverse_ip_model(ip: IpAddress) -> Seq<u8> {
    match ip {
        IpAddress::V4(a, b, c, d) => dec_digits(d) + seq![46u8] + dec_digits(c) + seq![46u8]
            + dec_digits(b) + seq![46u8] + dec_digits(a),
        IpAddress::V6(o) => v6_labels(o@, 15),
    }
}

/// The bytes `.in-addr.arpa`
pub open spec fn in_addr_arpa() -> Seq<u8> {
    seq![46u8, 105u8, 110u8, 45u8, 97u8, 100u8, 100u8, 114u8, 46u8, 97u8, 114u8, 112u8, 97u8]
}

/// The bytes `.ip6.arpa`
pub open spec fn ip6_arpa() -> Seq<u8> {
    seq![46u8, 105u8, 112u8, 54u8, 46u8, 97u8, 114u8, 112u8, 97u8]
}

/// The name a reverse (PTR) lookup of this address queries
pub open spec fn reverse_query_model(ip: IpAddress) -> Seq<u8> {
    match ip {
        IpAddress::V4(..) => reverse_ip_model(ip) + in_addr_arpa(),
        IpAddress::V6(..) => reverse_ip_model(ip) + ip6_arpa(),
    }
}

/// Append the decimal digits of one octet
fn push_dec(out: &mut Vec<u8>, b: u8)
    ensures
        final(out)@ == old(out)@ + dec_digits(b),
{
    if b < 10 {
        out.push(48 + b);
    } else if b < 100 {
        out.push(48 + b / 10);
        out.push(48 + b % 10);
    } else {
        out.push(48 + b / 100);
        out.push(48 + b / 10 % 10);
        out.push(48 + b % 10);
    }
    assert(out@ =~= old(out)@ + dec_digits(b));
}

/// The lower-case hex digit of one nibble value
fn hex_digit_exec(n: u8) -> (r: u8)
    requires
        n < 16,
    ensures
        r == hex_digit(n),
{
    if n < 10 {
        48 + n
    } else {
        87 + n
    }
}

/// Reverse an IP address into its dotted label form
pub fn reverse_ip(ip: &IpAddress) -> (r: Vec<u8>)
    ensures
        r@ == reverse_ip_model(*ip),
{
    let mut out: Vec<u8> = Vec::new();
    match ip {
        IpAddress::V4(a, b, c, d) => {
            push_dec(&mut out, *d);
            out.push(46);
            push_dec(&mut out, *c);
            out.push(46);
            push_dec(&mut out, *b);
            out.push(46);
            push_dec(&mut out, *a);
            assert(out@ =~= reverse_ip_model(*ip));
        },
        IpAddress::V6(o) => {
            let mut i: usize = 15;
            assert(out@ + v6_labels(o@, 15) =~= v6_labels(o@, 15));
            loop
                invariant_except_break
                    i <= 15,
                    o@.len() == 16,
                    out@ + v6_labels(o@, i as int) == v6_labels(o@, 15),
                ensures
                    out@ == v6_labels(o@, 15),
                decreases i,
            {
                let ghost out0 = out@;
                let lo = o[i] % 16;
                let hi = o[i] / 16;
                out.push(hex_digit_exec(lo));
                out.push(46);
                out.push(hex_digit_exec(hi));
                if i == 0 {
                    proof {
                        assert(out@ =~= out0 + v6_labels(o@, 0));
                    }
                    break;
                }
                out.push(46);
                proof {
                    assert(out@ + v6_labels(o@, i - 1) =~= out0 + v6_labels(o@, i as int));
                }
                i = i - 1;
            }
        },
    }
    out
}

/// The full name a reverse lookup of this address queries, under
/// `in-addr.arpa` or `ip6.arpa`
pub fn reverse_dns_query(ip: &IpAddress) -> (r: Vec<u8>)
    ensures
        r@ == reverse_query_model(*ip),
{
    let mut out = reverse_ip(ip);
    match ip {
        IpAddress::V4(..) => {
            let suffix: [u8; 13] = [46, 105, 110, 45, 97, 100, 100, 114, 46, 97, 114, 112, 97];
            assert(suffix@ =~= in_addr_arpa());
            out.extend_from_slice(suffix.as_slice());
        },
        IpAddress::V6(..) => {
            let suffix: [u8; 9] = [46, 105, 112, 54, 46, 97, 114, 112, 97];
            assert(suffix@ =~= ip6_arpa());
            out.extend_from_slice(suffix.as_slice());
        },
    }
    out
}

/// Split one byte into its high and low nibble values
pub fn byte_to_nibbles(b: u8) -> (r: Vec<u8>)
    ensures
        r@ == seq![(b / 16) as u8, (b % 16) as u8],
{
    let mut out: Vec<u8> = Vec::new();
    out.push(b / 16);
    out.push(b % 16);
    assert(out@ =~= seq![(b / 16) as u8, (b % 16) as u8]);
    out
}

/// Is the truncation bit set in a DNS header flags word? A truncated
/// response is rejected rather than retried over TCP.
pub fn is_truncated(flags: u32) -> (r: bool)
    ensures
        r == (flags & 0x0200u32 != 0),
{
    flags & 0x0200u32 != 0
}

//------ DNS name decoding --------------------------------------------------------

/// The dotted name encoded by length-prefixed labels from position `i`,
/// with `remaining` bytes left of the current label; decoding stops at a
/// zero byte or the end of the input
pub open spec fn tlv_from(raw: Seq<u8>, i: int, remaining: int) -> Seq<u8>
    decreases raw.len() - i,
{
    if i < 0 || i >= raw.len() || raw[i] == 0 {
        seq![]
    } else if remaining == 0 {
        (if i > 0 {
            seq![46u8]
        } else {
            seq![]
        }) + tlv_from(raw, i + 1, raw[i] as int)
    } else {
        seq![raw[i]] + tlv_from(raw, i + 1, remaining - 1)
    }
}

/// The dotted name encoded by the length-prefixed labels of `raw`
pub open spec fn tlv_name(raw: Seq<u8>) -> Seq<u8> {
    tlv_from(raw, 0, 0)
}

/// Decode a DNS name from its length-prefixed label form
pub fn parse_tlv_name(raw: &[u8]) -> (r: Vec<u8>)
    ensures
        r@ == tlv_name(raw@),
{
    let mut out: Vec<u8> = Vec::new();
    let mut i: usize = 0;
    let mut remaining: u8 = 0;
    assert(out@ + tlv_from(raw@, 0, 0) =~= tlv_from(raw@, 0, 0));
    while i < raw.len() && raw[i] != 0
        invariant
            i <= raw@.len(),
            out@ + tlv_from(raw@, i as int, remaining as int) == tlv_name(raw@),
        decreases raw@.len() - i,
    {
        let ghost out0 = out@;
        if remaining == 0 {
            remaining = raw[i];
            if i > 0 {
                out.push(46);
                proof {
                    assert(out@ =~= out0 + seq![46u8]);
                }
            }
        } else {
            out.push(raw[i]);
            proof {
                assert(out@ =~= out0 + seq![raw@[i as int]]);
            }
            remaining = remaining - 1;
        }
        i = i + 1;
    }
    assert(tlv_from(raw@, i as int, remaining as int) =~= Seq::<u8>::empty());
    assert(out@ =~= tlv_name(raw@));
    out
}

//------ Blocklists and FCrDNS ------------------------------------------------------

/// Utilities for looking up IP addresses on blocklists and doing reverse
/// DNS. The embedder runs the queries; this holds the configuration and
/// makes the decisions.
pub struct MxDns {
    /// The nameserver used for ordinary queries
    pub bootstrap: IpAddress,
    /// The configured blocklist zones
    pub blocklists: Vec<Vec<u8>>,
}

impl MxDns {
    /// Create a MxDns that uses the given DNS server for standard queries
    pub fn with_dns(bootstrap_dns: IpAddress, blocklists: Vec<Vec<u8>>) -> (m: MxDns)
        ensures
            m.bootstrap == bootstrap_dns,
            m.blocklists == blocklists,
    {
        MxDns { bootstrap: bootstrap_dns, blocklists }
    }

    /// The name whose A record the given blocklist is asked for:
    /// `<reversed-ip>.<zone>`
    pub fn blocklist_query(&self, index: usize, ip: &IpAddress) -> (q: Vec<u8>)
        requires
            index < self.blocklists@.len(),
        ensures
            q@ == reverse_ip_model(*ip) + seq![46u8] + self.blocklists@[index as int]@,
    {
        let mut q = reverse_ip(ip);
        q.push(46);
        let zone = &self.blocklists[index];
        q.extend_from_slice(zone.as_slice());
        assert(q@ =~= reverse_ip_model(*ip) + seq![46u8] + self.blocklists@[index as int]@);
        q
    }

    /// Combine the per-blocklist answers: listed anywhere means blocked,
    /// no lists at all means not blocked, and only when every list failed
    /// is the last failure surfaced
    pub fn is_blocked(&self, results: Vec<Result<bool, Error>>) -> (r: Result<bool, Error>)
        ensures
            results@.len() == 0 ==> r == Result::<bool, Error>::Ok(false),
            (exists|i: int| 0 <= i < results@.len() && results@[i] == Result::<bool, Error>::Ok(true))
                ==> r == Result::<bool, Error>::Ok(true),
            (results@.len() > 0 && forall|i: int|
                0 <= i < results@.len() ==> results@[i] is Err) ==> r == results@.last(),
            ((exists|i: int| 0 <= i < results@.len() && results@[i] is Ok) && (forall|i: int|
                0 <= i < results@.len() ==> results@[i] != Result::<bool, Error>::Ok(true))) ==> r
                == Result::<bool, Error>::Ok(false),
    {
        if results.len() == 0 {
            return Ok(false);
        }
        let mut any_listed = false;
        let mut any_ok = false;
        let mut i: usize = 0;
        while i < results.len()
            invariant
                i <= results@.len(),
                any_listed == exists|j: int|
                    0 <= j < i && results@[j] == Result::<bool, Error>::Ok(true),
                any_ok == exists|j: int| 0 <= j < i && results@[j] is Ok,
            decreases results@.len() - i,
        {
            match &results[i] {
                Ok(listed) => {
                    any_ok = true;
                    if *listed {
                        any_listed = true;
                    }
                },
                Err(_) => {},
            }
            i = i + 1;
        }
        if any_listed {
            Ok(true)
        } else if any_ok {
            Ok(false)
        } else {
            let mut results = results;
            match results.pop() {
                Some(last) => last,
                None => Ok(false),
            }
        }
    }

    /// The forward-confirmed reverse DNS outcome. Without a reverse name
    /// no confirmation is possible; otherwise the name is confirmed exactly
    /// when the forward lookup of that name contains the original address
    pub fn fcrdns(&self, ip: &IpAddress, reverse: Option<Vec<u8>>, forward: &Vec<IpAddress>) -> (r:
        FCrDNS)
        ensures
            reverse is None ==> r is NoReverse,
            reverse matches Some(name) ==> {
                if exists|i: int| 0 <= i < forward@.len() && ip_equal(forward@[i], *ip) {
                    r matches FCrDNS::Confirmed(n) && n@ == name@
                } else {
                    r matches FCrDNS::UnConfirmed(n) && n@ == name@
                }
            },
    {
        match reverse {
            None => FCrDNS::NoReverse,
            Some(name) => {
                let mut found = false;
                let mut i: usize = 0;
                while i < forward.len()
                    invariant
                        i <= forward@.len(),
                        found == exists|j: int| 0 <= j < i && ip_equal(forward@[j], *ip),
                    decreases forward@.len() - i,
                {
                    if ip_eq(&forward[i], ip) {
                        found = true;
                    }
                    i = i + 1;
                }
                if found {
                    FCrDNS::Confirmed(name)
                } else {
                    FCrDNS::UnConfirmed(name)
                }
            },
        }
    }
}

/// Equality of two addresses: same family, same octets
pub open spec fn ip_equal(a: IpAddress, b: IpAddress) -> bool {
    match (a, b) {
        (IpAddress::V4(a0, a1, a2, a3), IpAddress::V4(b0, b1, b2, b3)) => a0 == b0 && a1 == b1
            && a2 == b2 && a3 == b3,
        (IpAddress::V6(x), IpAddress::V6(y)) => x@ == y@,
        _ => false,
    }
}

/// Are two addresses the same?
pub fn ip_eq(a: &IpAddress, b: &IpAddress) -> (r: bool)
    ensures
        r == ip_equal(*a, *b),
{
    match (a, b) {
        (IpAddress::V4(a0, a1, a2, a3), IpAddress::V4(b0, b1, b2, b3)) => {
            a0 == b0 && a1 == b1 && a2 == b2 && a3 == b3
        },
        (IpAddress::V6(x), IpAddress::V6(y)) => {
            let mut i: usize = 0;
            while i < 16
                invariant
                    i <= 16,
                    x@.len() == 16,
                    y@.len() == 16,
                    ip_equal(*a, *b) == (x@ == y@),
                    forall|j: int| 0 <= j < i ==> x@[j] == y@[j],
                decreases 16 - i,
            {
                if x[i] != y[i] {
                    proof {
                        assert(x@[i as int] != y@[i as int]);
                    }
                    return false;
                }
                i = i + 1;
            }
            proof {
                assert(x@ =~= y@);
            }
            true
        },
        _ => false,
    }
}

} // verus!
