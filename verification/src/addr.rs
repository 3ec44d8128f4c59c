//! The address model: IP socket addresses and `(domain, port)` targets.
//!
//! A `TargetAddr::Domain` is constructed only when the name is not parseable
//! as a literal IP address, holds between 1 and 255 bytes, and is forwarded
//! to the proxy verbatim; the proxy performs resolution.

use vstd::prelude::*;
use vstd::string::StringSliceAdditionalSpecFns;
use crate::error::Error;

verus! {

/// Every byte is an ASCII decimal digit.
pub open spec fn all_digits(b: Seq<u8>) -> bool {
    forall|i: int| 0 <= i < b.len() ==> 0x30 <= #[trigger] b[i] <= 0x39
}

/// The value of an ASCII decimal digit string.
pub open spec fn digits_value(b: Seq<u8>) -> int
    decreases b.len(),
{
    if b.len() == 0 {
        0
    } else {
        digits_value(b.drop_last()) * 10 + (b.last() - 0x30)
    }
}

proof fn lemma_digits_value_nonneg(b: Seq<u8>)
    requires
        all_digits(b),
    ensures
        digits_value(b) >= 0,
    decreases b.len(),
{
    if b.len() > 0 {
        assert(all_digits(b.drop_last()));
        lemma_digits_value_nonneg(b.drop_last());
    }
}

proof fn lemma_digits_step(b: Seq<u8>, i: int)
    requires
        0 <= i < b.len(),
    ensures
        digits_value(b.take(i + 1)) == digits_value(b.take(i)) * 10 + (b[i] - 0x30),
{
    assert(b.take(i + 1).drop_last() =~= b.take(i));
    assert(b.take(i + 1).last() == b[i]);
}

/// A port string: one or more decimal digits whose value fits in 16 bits.
pub open spec fn spec_parse_port(b: Seq<u8>) -> Option<u16> {
    if b.len() >= 1 && all_digits(b) && digits_value(b) <= 65535 {
        Some(digits_value(b) as u16)
    } else {
        None
    }
}

/// Parses a port: one or more decimal digits, value at most 65535.
pub fn parse_port_bytes(b: &[u8]) -> (r: Option<u16>)
    ensures
        r == spec_parse_port(b@),
{
    let n = b.len();
    if n == 0 {
        return None;
    }
    let mut v: u32 = 0;
    let mut i: usize = 0;
    proof {
        assert(b@.take(0) =~= Seq::<u8>::empty());
    }
    while i < n
        invariant
            n == b@.len(),
            i <= n,
            all_digits(b@.take(i as int)),
            v <= 65536,
            v <= 65535 ==> v == digits_value(b@.take(i as int)),
            v == 65536 ==> digits_value(b@.take(i as int)) > 65535,
        decreases n - i,
    {
        let c = b[i];
        if c < 0x30 || c > 0x39 {
            proof {
                assert(!all_digits(b@));
            }
            return None;
        }
        proof {
            lemma_digits_step(b@, i as int);
            lemma_digits_value_nonneg(b@.take(i as int));
        }
        if v <= 65535 {
            let w = v * 10 + ((c - 0x30) as u32);
            if w <= 65535 {
                v = w;
            } else {
                v = 65536;
            }
        }
        i = i + 1;
        proof {
            assert(all_digits(b@.take(i as int)));
        }
    }
    proof {
        assert(b@.take(n as int) =~= b@);
    }
    if v <= 65535 {
        Some(v as u16)
    } else {
        None
    }
}

/// The index of the first occurrence of `c` in `b` at or after `from`, or
/// `b.len()` when there is none.
pub open spec fn find_from(b: Seq<u8>, from: int, c: u8) -> int
    decreases b.len() - from,
{
    if from < 0 || from >= b.len() {
        b.len() as int
    } else if b[from] == c {
        from
    } else {
        find_from(b, from + 1, c)
    }
}

proof fn lemma_find_from_at(b: Seq<u8>, from: int, c: u8, i: int)
    requires
        0 <= from <= i <= b.len(),
        forall|k: int| from <= k < i ==> #[trigger] b[k] != c,
        i < b.len() ==> b[i] == c,
    ensures
        find_from(b, from, c) == i,
    decreases i - from,
{
    if from < i {
        lemma_find_from_at(b, from + 1, c, i);
    }
}

/// One decimal octet of a dotted-quad IPv4 literal: one to three digits, no
/// leading zero, value at most 255.
pub open spec fn spec_octet(g: Seq<u8>) -> Option<u8> {
    if !(1 <= g.len() <= 3) || !all_digits(g) {
        None
    } else if g.len() > 1 && g[0] == 0x30 {
        None
    } else if digits_value(g) <= 255 {
        Some(digits_value(g) as u8)
    } else {
        None
    }
}

/// An IPv4 literal: four decimal octets in dot-decimal notation. Yields the
/// four address bytes.
pub open spec fn spec_parse_ipv4(b: Seq<u8>) -> Option<Seq<u8>> {
    let d1 = find_from(b, 0, 0x2E);
    let d2 = find_from(b, d1 + 1, 0x2E);
    let d3 = find_from(b, d2 + 1, 0x2E);
    let d4 = find_from(b, d3 + 1, 0x2E);
    if d3 >= b.len() || d4 < b.len() {
        None
    } else {
        match (
            spec_octet(b.subrange(0, d1)),
            spec_octet(b.subrange(d1 + 1, d2)),
            spec_octet(b.subrange(d2 + 1, d3)),
            spec_octet(b.subrange(d3 + 1, b.len() as int)),
        ) {
            (Some(o1), Some(o2), Some(o3), Some(o4)) => Some(seq![o1, o2, o3, o4]),
            _ => None,
        }
    }
}

/// Finds the first `.` at or after `from`, returning `b.len()` if none.
fn find_dot(b: &[u8], from: usize) -> (r: usize)
    requires
        from <= b@.len(),
    ensures
        r == find_from(b@, from as int, 0x2E),
        from <= r <= b@.len(),
        r < b@.len() ==> b@[r as int] == 0x2E,
        forall|k: int| from <= k < r ==> #[trigger] b@[k] != 0x2E,
{
    let n = b.len();
    let mut i: usize = from;
    while i < n
        invariant
            from <= i <= n,
            n == b@.len(),
            forall|k: int| from <= k < i ==> #[trigger] b@[k] != 0x2E,
        decreases n - i,
    {
        if b[i] == 0x2E {
            proof {
                lemma_find_from_at(b@, from as int, 0x2E, i as int);
            }
            return i;
        }
        i = i + 1;
    }
    proof {
        lemma_find_from_at(b@, from as int, 0x2E, n as int);
    }
    n
}

/// Parses one decimal octet out of `b[from..to]`.
fn parse_octet(b: &[u8], from: usize, to: usize) -> (r: Option<u8>)
    requires
        from <= to <= b@.len(),
    ensures
        r == spec_octet(b@.subrange(from as int, to as int)),
{
    let g = vstd::slice::slice_subrange(b, from, to);
    let n = g.len();
    if n < 1 || n > 3 {
        return None;
    }
    let mut v: u32 = 0;
    let mut i: usize = 0;
    proof {
        assert(g@.take(0) =~= Seq::<u8>::empty());
    }
    while i < n
        invariant
            g@ == b@.subrange(from as int, to as int),
            n == g@.len(),
            1 <= n <= 3,
            i <= n,
            all_digits(g@.take(i as int)),
            v == digits_value(g@.take(i as int)),
            i == 0 ==> v == 0,
            i == 1 ==> v <= 9,
            i == 2 ==> v <= 99,
            i == 3 ==> v <= 999,
        decreases n - i,
    {
        let c = g[i];
        if c < 0x30 || c > 0x39 {
            proof {
                assert(!(0x30 <= g@[i as int] <= 0x39));
                assert(!all_digits(g@));
            }
            return None;
        }
        proof {
            lemma_digits_step(g@, i as int);
            lemma_digits_value_nonneg(g@.take(i as int));
        }
        v = v * 10 + ((c - 0x30) as u32);
        i = i + 1;
        proof {
            assert(all_digits(g@.take(i as int)));
        }
    }
    proof {
        assert(g@.take(n as int) =~= g@);
    }
    if n > 1 && g[0] == 0x30 {
        return None;
    }
    if v <= 255 {
        Some(v as u8)
    } else {
        None
    }
}

/// Parses an IPv4 literal in dot-decimal notation, yielding the four address
/// bytes, exactly as `spec_parse_ipv4` describes.
pub fn parse_ipv4_bytes(b: &[u8]) -> (r: Option<[u8; 4]>)
    ensures
        match r {
            Some(o) => spec_parse_ipv4(b@) == Some(o@),
            None => spec_parse_ipv4(b@) is None,
        },
{
    let n = b.len();
    let d1 = find_dot(b, 0);
    if d1 >= n {
        return None;
    }
    let d2 = find_dot(b, d1 + 1);
    if d2 >= n {
        return None;
    }
    let d3 = find_dot(b, d2 + 1);
    if d3 >= n {
        return None;
    }
    let d4 = find_dot(b, d3 + 1);
    if d4 < n {
        return None;
    }
    let o1 = parse_octet(b, 0, d1);
    let o2 = parse_octet(b, d1 + 1, d2);
    let o3 = parse_octet(b, d2 + 1, d3);
    let o4 = parse_octet(b, d3 + 1, n);
    match (o1, o2, o3, o4) {
        (Some(x1), Some(x2), Some(x3), Some(x4)) => {
            let o: [u8; 4] = [x1, x2, x3, x4];
            proof {
                assert(o@ =~= seq![x1, x2, x3, x4]);
            }
            Some(o)
        },
        _ => None,
    }
}

/// The mathematical model of a target address: the address bytes (four for
/// IPv4, sixteen for IPv6) or the domain name bytes, plus the port.
pub enum TargetView {
    Ip(Seq<u8>, u16),
    Domain(Seq<u8>, u16),
}

impl TargetView {
    /// A well-formed target: IP addresses have exactly 4 or 16 bytes, domain
    /// names between 1 and 255 bytes.
    pub open spec fn wf(self) -> bool {
        match self {
            TargetView::Ip(b, _) => b.len() == 4 || b.len() == 16,
            TargetView::Domain(name, _) => 1 <= name.len() <= 255,
        }
    }
}

/// An IPv4 or IPv6 host address, as the raw network-order bytes.
#[derive(Debug, Clone, Copy, PartialEq, Eq)]
pub enum HostIp {
    /// Four address bytes.
    V4([u8; 4]),
    /// Sixteen address bytes.
    V6([u8; 16]),
}

impl View for HostIp {
    type V = Seq<u8>;

    /// The address bytes: four for IPv4, sixteen for IPv6.
    open spec fn view(&self) -> Seq<u8> {
        match *self {
            HostIp::V4(b) => b@,
            HostIp::V6(b) => b@,
        }
    }
}

/// A socket address: a host IP plus a port.
#[derive(Debug, Clone, Copy, PartialEq, Eq)]
pub struct SockAddr {
    pub ip: HostIp,
    pub port: u16,
}

impl View for SockAddr {
    type V = (Seq<u8>, u16);

    open spec fn view(&self) -> (Seq<u8>, u16) {
        (self.ip@, self.port)
    }
}

/// A SOCKS connection target.
#[derive(Debug, PartialEq, Eq)]
pub enum TargetAddr {
    /// Connect to an IP address.
    Ip(SockAddr),
    /// Connect to a fully-qualified domain name, held as its UTF-8 bytes.
    ///
    /// The name is passed along to the proxy server and DNS lookup happens
    /// there.
    Domain(Vec<u8>, u16),
}

impl View for TargetAddr {
    type V = TargetView;

    open spec fn view(&self) -> TargetView {
        match self {
            TargetAddr::Ip(a) => TargetView::Ip(a.ip@, a.port),
            TargetAddr::Domain(name, port) => TargetView::Domain(name@, *port),
        }
    }
}

impl TargetAddr {
    /// Creates an owned copy. It is usually used to eliminate a borrow.
    pub fn to_owned(&self) -> (r: TargetAddr)
        ensures
            r@ == self@,
    {
        match self {
            TargetAddr::Ip(a) => TargetAddr::Ip(*a),
            TargetAddr::Domain(name, port) => {
                TargetAddr::Domain(vstd::slice::slice_to_vec(name.as_slice()), *port)
            },
        }
    }
}

/// The 16 address bytes of the IPv6 literal that a byte string spells, if it
/// spells one; the textual forms of RFC 4291 are too long to restate here.
pub uninterp spec fn ipv6_bytes_of(b: Seq<u8>) -> Option<Seq<u8>>;

/// Relies on `core::net::Ipv6Addr`'s `FromStr` (reached through
/// `core::str::from_utf8`, which only converts the argument): it accepts
/// exactly the RFC 4291 textual forms of an IPv6 address, and the result
/// depends on the bytes alone. `Ipv6Addr::octets` yields the 16 address
/// bytes in network order.
#[verifier::external_body]
fn parse_ipv6_bytes(b: &[u8]) -> (r: Option<[u8; 16]>)
    ensures
        match r {
            Some(o) => ipv6_bytes_of(b@) == Some(o@),
            None => ipv6_bytes_of(b@) is None,
        },
{
    match core::str::from_utf8(b) {
        Ok(s) => match s.parse::<core::net::Ipv6Addr>() {
            Ok(a) => Some(a.octets()),
            Err(_) => None,
        },
        Err(_) => None,
    }
}

/// What a host string and a port convert to: the IPv4 literal, else the IPv6
/// literal, else a domain name of 1 to 255 bytes; an empty or overlong name
/// is rejected.
pub open spec fn spec_target_of_host(hb: Seq<u8>, port: u16) -> Result<TargetView, Error> {
    if spec_parse_ipv4(hb) is Some {
        Ok(TargetView::Ip(spec_parse_ipv4(hb)->Some_0, port))
    } else if ipv6_bytes_of(hb) is Some {
        Ok(TargetView::Ip(ipv6_bytes_of(hb)->Some_0, port))
    } else if hb.len() > 255 {
        Err(Error::InvalidTargetAddress("overlong domain"))
    } else if hb.len() == 0 {
        Err(Error::InvalidTargetAddress("invalid address format"))
    } else {
        Ok(TargetView::Domain(hb, port))
    }
}

/// Converts a host byte string and a port into a target: an IP literal gives
/// the `Ip` variant, anything else a validated domain name.
fn host_bytes_to_target(hb: &[u8], port: u16) -> (r: Result<TargetAddr, Error>)
    ensures
        match r {
            Ok(t) => spec_target_of_host(hb@, port) == Ok::<TargetView, Error>(t@) && t@.wf(),
            Err(e) => spec_target_of_host(hb@, port) == Err::<TargetView, Error>(e),
        },
{
    if let Some(o) = parse_ipv4_bytes(hb) {
        return Ok(TargetAddr::Ip(SockAddr { ip: HostIp::V4(o), port }));
    }
    if let Some(o) = parse_ipv6_bytes(hb) {
        return Ok(TargetAddr::Ip(SockAddr { ip: HostIp::V6(o), port }));
    }
    if hb.len() > 255 {
        return Err(Error::InvalidTargetAddress("overlong domain"));
    }
    if hb.len() == 0 {
        return Err(Error::InvalidTargetAddress("invalid address format"));
    }
    Ok(TargetAddr::Domain(vstd::slice::slice_to_vec(hb), port))
}

/// Converts a socket address into a target: always the `Ip` variant.
pub fn target_from_sock_addr(a: SockAddr) -> (r: TargetAddr)
    ensures
        r@ == TargetView::Ip(a.ip@, a.port),
        r@.wf(),
{
    TargetAddr::Ip(a)
}

/// Converts a `(host, port)` pair into a target. The host is tried as a bare
/// IPv4 then IPv6 literal first; otherwise it is a domain name, which must
/// hold 1 to 255 bytes, or the conversion fails with `InvalidTargetAddress`.
pub fn target_from_host_port(host: &str, port: u16) -> (r: Result<TargetAddr, Error>)
    ensures
        match r {
            Ok(t) => spec_target_of_host(host.spec_bytes(), port) == Ok::<TargetView, Error>(t@)
                && t@.wf(),
            Err(e) => spec_target_of_host(host.spec_bytes(), port) == Err::<TargetView, Error>(e),
        },
{
    host_bytes_to_target(host.as_bytes(), port)
}

/// What a `"host:port"` string converts to: the text after the rightmost `:`
/// must be a valid port; a bracketed host that spells an IPv6 literal gives
/// the `Ip` variant; everything else converts as a `(host, port)` pair, with
/// the brackets kept.
pub open spec fn spec_target_of_str(b: Seq<u8>, j: int) -> Result<TargetView, Error>
    recommends
        j == last_colon(b),
{
    if j < 0 {
        Err(Error::InvalidTargetAddress("invalid address format"))
    } else {
        match spec_parse_port(b.subrange(j + 1, b.len() as int)) {
            Option::None => Err(Error::InvalidTargetAddress("invalid address format")),
            Option::Some(port) => {
                let hb = b.take(j);
                if hb.len() >= 2 && hb[0] == 0x5B && hb[hb.len() - 1] == 0x5D && ipv6_bytes_of(
                    hb.subrange(1, hb.len() - 1),
                ) is Some {
                    Ok(
                        TargetView::Ip(
                            ipv6_bytes_of(hb.subrange(1, hb.len() - 1))->Some_0,
                            port,
                        ),
                    )
                } else {
                    spec_target_of_host(hb, port)
                }
            },
        }
    }
}

/// The index of the rightmost `:`, or -1 when there is none.
pub open spec fn last_colon(b: Seq<u8>) -> int
    decreases b.len(),
{
    if b.len() == 0 {
        -1
    } else if b.last() == 0x3A {
        b.len() - 1
    } else {
        last_colon(b.drop_last())
    }
}

proof fn lemma_last_colon_at(b: Seq<u8>, j: int)
    requires
        -1 <= j < b.len(),
        j >= 0 ==> b[j] == 0x3A,
        forall|k: int| j < k < b.len() ==> #[trigger] b[k] != 0x3A,
    ensures
        last_colon(b) == j,
    decreases b.len(),
{
    if b.len() > 0 {
        if b.last() == 0x3A {
        } else {
            assert(b.drop_last() =~= b.take(b.len() - 1));
            lemma_last_colon_at(b.drop_last(), j);
        }
    }
}

/// Converts a `"host:port"` string into a target, splitting on the rightmost
/// `:`. A literal IP address (bracketed IPv6 or bare IPv4) with a port gives
/// the `Ip` variant; a missing `:`, an invalid port, or an invalid domain
/// fails with `InvalidTargetAddress`.
pub fn target_from_str(s: &str) -> (r: Result<TargetAddr, Error>)
    ensures
        match r {
            Ok(t) => spec_target_of_str(s.spec_bytes(), last_colon(s.spec_bytes())) == Ok::<
                TargetView,
                Error,
            >(t@) && t@.wf(),
            Err(e) => spec_target_of_str(s.spec_bytes(), last_colon(s.spec_bytes())) == Err::<
                TargetView,
                Error,
            >(e),
        },
{
    let b = s.as_bytes();
    let n = b.len();
    let mut i: usize = n;
    while i > 0
        invariant
            b@ == s.spec_bytes(),
            n == b@.len(),
            i <= n,
            forall|k: int| i <= k < n ==> #[trigger] b@[k] != 0x3A,
        decreases i,
    {
        i = i - 1;
        if b[i] == 0x3A {
            proof {
                lemma_last_colon_at(b@, i as int);
            }
            let port = match parse_port_bytes(
                vstd::slice::slice_subrange(b, i + 1, n),
            ) {
                Some(p) => p,
                Option::None => {
                    return Err(Error::InvalidTargetAddress("invalid address format"));
                },
            };
            let hb = vstd::slice::slice_subrange(b, 0, i);
            proof {
                assert(hb@ =~= b@.take(i as int));
            }
            if hb.len() >= 2 {
                let first = hb[0];
                let last = hb[hb.len() - 1];
                if first == 0x5B && last == 0x5D {
                    let inner = vstd::slice::slice_subrange(hb, 1, hb.len() - 1);
                    if let Some(o) = parse_ipv6_bytes(inner) {
                        return Ok(TargetAddr::Ip(SockAddr { ip: HostIp::V6(o), port }));
                    }
                }
            }
            return host_bytes_to_target(hb, port);
        }
    }
    proof {
        lemma_last_colon_at(b@, -1);
    }
    Err(Error::InvalidTargetAddress("invalid address format"))
}

/// A single proxy socket address as a one-element candidate sequence.
pub fn to_proxy_addrs(addr: SockAddr) -> (r: Vec<SockAddr>)
    ensures
        r@ == seq![addr],
{
    let mut v: Vec<SockAddr> = Vec::new();
    v.push(addr);
    proof {
        assert(v@ =~= seq![addr]);
    }
    v
}

/// A slice of proxy socket addresses as a candidate sequence, in order.
pub fn slice_to_proxy_addrs(addrs: &[SockAddr]) -> (r: Vec<SockAddr>)
    ensures
        r@ == addrs@,
{
    vstd::slice::slice_to_vec(addrs)
}

} // verus!
