//! The SOCKS5 wire frames (RFC 1928, RFC 1929): encoding of the
//! method-selection, password sub-negotiation and request frames, and parsing
//! of reply frames.
//!
//! Every frame is specified as a mathematical function of its inputs; the
//! executable encoders and the reply parser are proved to match those
//! functions exactly, and parsing is proved to invert encoding.

use vstd::prelude::*;
use vstd::utf8::valid_utf8;
use crate::addr::{HostIp, TargetAddr, TargetView};
use crate::auth::{Authentication, AuthView};
use crate::error::Error;

verus! {

/// The SOCKS5 command sent in a request frame.
#[derive(Debug, Clone, Copy, PartialEq, Eq)]
pub enum Command {
    /// CONNECT (0x01).
    Connect,
    /// BIND (0x02).
    Bind,
    /// UDP ASSOCIATE (0x03); only the code is emitted, no UDP relay framing.
    Associate,
}

impl Command {
    /// The wire code of the command.
    pub open spec fn code_spec(self) -> u8 {
        match self {
            Command::Connect => 0x01,
            Command::Bind => 0x02,
            Command::Associate => 0x03,
        }
    }

    /// The wire code of the command.
    pub fn code(&self) -> (r: u8)
        ensures
            r == self.code_spec(),
    {
        match self {
            Command::Connect => 0x01,
            Command::Bind => 0x02,
            Command::Associate => 0x03,
        }
    }
}

/// A port in network order: high byte, then low byte.
pub open spec fn spec_be_port(port: u16) -> Seq<u8> {
    seq![(port / 256) as u8, (port % 256) as u8]
}

/// The port encoded by a network-order byte pair.
pub open spec fn spec_port_of(hi: u8, lo: u8) -> u16 {
    ((hi as int) * 256 + (lo as int)) as u16
}

/// The method-selection frame: `[0x05, NMETHODS, METHODS...]`. With no
/// credentials only NoAuth (0x00) is offered; with credentials both NoAuth
/// and username/password (0x02) are offered.
pub open spec fn spec_method_selection_frame(auth: AuthView) -> Seq<u8> {
    match auth {
        AuthView::NoAuth => seq![0x05u8, 0x01u8, 0x00u8],
        AuthView::Password(_, _) => seq![0x05u8, 0x02u8, 0x00u8, 0x02u8],
    }
}

/// The RFC 1929 sub-negotiation frame: `[0x01, ULEN, UNAME..., PLEN, PASSWD...]`.
pub open spec fn spec_password_frame(username: Seq<u8>, password: Seq<u8>) -> Seq<u8> {
    seq![0x01u8, username.len() as u8] + username + seq![password.len() as u8] + password
}

/// `ATYP, DST.ADDR, DST.PORT`: the address tail shared by request and reply
/// frames. IPv4 uses ATYP 0x01 with 4 address bytes, IPv6 uses 0x04 with 16,
/// a domain uses 0x03 with a length prefix and the raw name bytes.
pub open spec fn spec_addr_bytes(t: TargetView) -> Seq<u8> {
    match t {
        TargetView::Ip(b, port) => if b.len() == 4 {
            seq![0x01u8] + b + spec_be_port(port)
        } else {
            seq![0x04u8] + b + spec_be_port(port)
        },
        TargetView::Domain(name, port) => seq![0x03u8, name.len() as u8] + name + spec_be_port(
            port,
        ),
    }
}

/// The request frame: `[0x05, CMD, 0x00, ATYP, DST.ADDR, DST.PORT]`.
pub open spec fn spec_request_frame(command: Command, t: TargetView) -> Seq<u8> {
    seq![0x05u8, command.code_spec(), 0x00u8] + spec_addr_bytes(t)
}

/// The error that a non-zero REP byte of a reply maps to. Any code above
/// 0x08 maps to `UnknownAuthMethod`.
pub open spec fn spec_reply_code_error(rep: u8) -> Error {
    if rep == 0x01 {
        Error::GeneralSocksServerFailure
    } else if rep == 0x02 {
        Error::ConnectionNotAllowedByRuleset
    } else if rep == 0x03 {
        Error::NetworkUnreachable
    } else if rep == 0x04 {
        Error::HostUnreachable
    } else if rep == 0x05 {
        Error::ConnectionRefused
    } else if rep == 0x06 {
        Error::TtlExpired
    } else if rep == 0x07 {
        Error::CommandNotSupported
    } else if rep == 0x08 {
        Error::AddressTypeNotSupported
    } else {
        Error::UnknownAuthMethod
    }
}

/// The error that a non-zero REP byte of a reply maps to.
pub fn reply_code_error(rep: u8) -> (r: Error)
    requires
        rep != 0x00,
    ensures
        r == spec_reply_code_error(rep),
{
    if rep == 0x01 {
        Error::GeneralSocksServerFailure
    } else if rep == 0x02 {
        Error::ConnectionNotAllowedByRuleset
    } else if rep == 0x03 {
        Error::NetworkUnreachable
    } else if rep == 0x04 {
        Error::HostUnreachable
    } else if rep == 0x05 {
        Error::ConnectionRefused
    } else if rep == 0x06 {
        Error::TtlExpired
    } else if rep == 0x07 {
        Error::CommandNotSupported
    } else if rep == 0x08 {
        Error::AddressTypeNotSupported
    } else {
        Error::UnknownAuthMethod
    }
}

/// Checks the reply header `[VER, REP, RSV, ATYP]`: `None` means the header
/// is acceptable and its ATYP is one of 0x01, 0x03, 0x04.
pub open spec fn spec_check_reply_header(h: Seq<u8>) -> Option<Error>
    recommends
        h.len() == 4,
{
    if h[0] != 0x05 {
        Some(Error::InvalidResponseVersion)
    } else if h[2] != 0x00 {
        Some(Error::InvalidReservedByte)
    } else if h[1] != 0x00 {
        Some(spec_reply_code_error(h[1]))
    } else if h[3] == 0x01 || h[3] == 0x03 || h[3] == 0x04 {
        None
    } else {
        Some(Error::UnknownAddressType)
    }
}

/// The total reply frame length once the ATYP (and, for a domain, the length
/// prefix at index 4) is known.
pub open spec fn spec_reply_total_len(atyp: u8, name_len: u8) -> int {
    if atyp == 0x01 {
        10
    } else if atyp == 0x04 {
        22
    } else {
        7 + name_len
    }
}

/// Parses `BND.ADDR`/`BND.PORT` out of a complete reply frame. A domain name
/// must be non-empty and valid UTF-8.
pub open spec fn spec_parse_bound_addr(f: Seq<u8>) -> Result<TargetView, Error>
    recommends
        f.len() >= 5,
        f[3] == 0x01 || f[3] == 0x03 || f[3] == 0x04,
        f.len() == spec_reply_total_len(f[3], f[4]),
{
    if f[3] == 0x01 {
        Ok(TargetView::Ip(f.subrange(4, 8), spec_port_of(f[8], f[9])))
    } else if f[3] == 0x04 {
        Ok(TargetView::Ip(f.subrange(4, 20), spec_port_of(f[20], f[21])))
    } else {
        let n = f[4] as int;
        if n == 0 {
            Err(Error::InvalidTargetAddress("invalid address format"))
        } else if !valid_utf8(f.subrange(5, 5 + n)) {
            Err(Error::InvalidTargetAddress("not a valid UTF-8 string"))
        } else {
            Ok(TargetView::Domain(f.subrange(5, 5 + n), spec_port_of(f[5 + n], f[6 + n])))
        }
    }
}

/// Appends all of `src` to `dst`.
fn append_bytes(dst: &mut Vec<u8>, src: &[u8])
    requires
        old(dst)@.len() + src@.len() <= usize::MAX,
    ensures
        final(dst)@ == old(dst)@ + src@,
{
    let n = src.len();
    let mut i: usize = 0;
    while i < n
        invariant
            n == src@.len(),
            i <= n,
            dst@ == old(dst)@ + src@.take(i as int),
        decreases n - i,
    {
        dst.push(src[i]);
        i = i + 1;
        proof {
            assert(dst@ =~= old(dst)@ + src@.take(i as int));
        }
    }
    proof {
        assert(dst@ =~= old(dst)@ + src@);
    }
}

/// Appends a port in network order.
fn append_be_port(dst: &mut Vec<u8>, port: u16)
    requires
        old(dst)@.len() + 2 <= usize::MAX,
    ensures
        final(dst)@ == old(dst)@ + spec_be_port(port),
{
    dst.push((port / 256) as u8);
    dst.push((port % 256) as u8);
    proof {
        assert(dst@ =~= old(dst)@ + spec_be_port(port));
    }
}

/// Encodes the method-selection frame for an authentication configuration.
pub fn encode_method_selection(auth: &Authentication) -> (r: Vec<u8>)
    ensures
        r@ == spec_method_selection_frame(auth@),
{
    let mut r: Vec<u8> = Vec::new();
    r.push(0x05);
    match auth {
        Authentication::NoAuth => {
            r.push(0x01);
            r.push(0x00);
        },
        Authentication::Password { .. } => {
            r.push(0x02);
            r.push(0x00);
            r.push(0x02);
        },
    }
    proof {
        assert(r@ =~= spec_method_selection_frame(auth@));
    }
    r
}

/// Encodes the RFC 1929 username/password sub-negotiation frame.
pub fn encode_password_frame(auth: &Authentication) -> (r: Vec<u8>)
    requires
        auth@ is Password,
        auth@.wf(),
    ensures
        r@ == spec_password_frame(auth@->Password_0, auth@->Password_1),
{
    match auth {
        Authentication::Password { username, password } => {
            let mut r: Vec<u8> = Vec::new();
            r.push(0x01);
            r.push(username.len() as u8);
            append_bytes(&mut r, username.as_slice());
            r.push(password.len() as u8);
            append_bytes(&mut r, password.as_slice());
            proof {
                assert(r@ =~= spec_password_frame(auth@->Password_0, auth@->Password_1));
            }
            r
        },
        Authentication::NoAuth => {
            proof {
                assert(false);
            }
            Vec::new()
        },
    }
}

/// Encodes the `ATYP, DST.ADDR, DST.PORT` tail of a request frame.
fn append_addr_bytes(dst: &mut Vec<u8>, target: &TargetAddr)
    requires
        target@.wf(),
        old(dst)@.len() + 259 <= usize::MAX,
    ensures
        final(dst)@ == old(dst)@ + spec_addr_bytes(target@),
{
    match target {
        TargetAddr::Ip(a) => {
            match &a.ip {
                HostIp::V4(b) => {
                    dst.push(0x01);
                    append_bytes(dst, b.as_slice());
                },
                HostIp::V6(b) => {
                    dst.push(0x04);
                    append_bytes(dst, b.as_slice());
                },
            }
            append_be_port(dst, a.port);
        },
        TargetAddr::Domain(name, port) => {
            dst.push(0x03);
            dst.push(name.len() as u8);
            append_bytes(dst, name.as_slice());
            append_be_port(dst, *port);
        },
    }
    proof {
        assert(dst@ =~= old(dst)@ + spec_addr_bytes(target@));
    }
}

/// Encodes the request frame `[0x05, CMD, 0x00, ATYP, DST.ADDR, DST.PORT]`
/// for a command and a target. The frame is a pure function of the two.
pub fn encode_request(command: Command, target: &TargetAddr) -> (r: Vec<u8>)
    requires
        target@.wf(),
    ensures
        r@ == spec_request_frame(command, target@),
{
    let mut r: Vec<u8> = Vec::new();
    r.push(0x05);
    r.push(command.code());
    r.push(0x00);
    append_addr_bytes(&mut r, target);
    proof {
        assert(r@ =~= spec_request_frame(command, target@));
    }
    r
}

/// Checks whether the bytes at and after `i` begin with a well-formed UTF-8
/// scalar encoding, and how many bytes it takes: the leading byte gives the
/// width, the continuation bytes carry the data, and overlong encodings and
/// surrogate codepoints are rejected.
fn first_scalar_len(b: &[u8], i: usize) -> (r: Option<usize>)
    requires
        i < b@.len(),
    ensures
        match r {
            Some(w) => vstd::utf8::valid_first_scalar(b@.skip(i as int))
                && vstd::utf8::length_of_first_scalar(b@.skip(i as int)) == w && 1 <= w <= 4 && i
                + w <= b@.len(),
            None => !vstd::utf8::valid_first_scalar(b@.skip(i as int)),
        },
{
    let n = b.len();
    let b0 = b[i];
    if b0 <= 0x7f {
        proof {
            assert((b0 & 0x7F) < 0xD800 && (b0 & 0x7F) >= 0) by (bit_vector);
        }
        Some(1)
    } else if 0xc0 <= b0 && b0 <= 0xdf {
        if n - i < 2 {
            return None;
        }
        let b1 = b[i + 1];
        if !(0x80 <= b1 && b1 <= 0xbf) {
            return None;
        }
        let cp: u32 = (((b0 & 0x1f) as u32) << 6u32) | ((b1 & 0x3f) as u32);
        if cp < 0x80 {
            return None;
        }
        proof {
            assert((((b0 & 0x1f) as u32) << 6u32) | ((b1 & 0x3f) as u32) <= 0x7FF) by (bit_vector);
        }
        Some(2)
    } else if 0xe0 <= b0 && b0 <= 0xef {
        if n - i < 3 {
            return None;
        }
        let b1 = b[i + 1];
        let b2 = b[i + 2];
        if !(0x80 <= b1 && b1 <= 0xbf) || !(0x80 <= b2 && b2 <= 0xbf) {
            return None;
        }
        let cp: u32 = (((b0 & 0x0f) as u32) << 12u32) | (((b1 & 0x3f) as u32) << 6u32) | ((b2
            & 0x3f) as u32);
        if cp < 0x800 {
            return None;
        }
        if 0xd800 <= cp && cp <= 0xdfff {
            return None;
        }
        Some(3)
    } else if 0xf0 <= b0 && b0 <= 0xf7 {
        if n - i < 4 {
            return None;
        }
        let b1 = b[i + 1];
        let b2 = b[i + 2];
        let b3 = b[i + 3];
        if !(0x80 <= b1 && b1 <= 0xbf) || !(0x80 <= b2 && b2 <= 0xbf) || !(0x80 <= b3 && b3
            <= 0xbf) {
            return None;
        }
        let cp: u32 = (((b0 & 0x07) as u32) << 18u32) | (((b1 & 0x3f) as u32) << 12u32) | (((b2
            & 0x3f) as u32) << 6u32) | ((b3 & 0x3f) as u32);
        if cp < 0x10000 || cp > 0x10ffff {
            return None;
        }
        Some(4)
    } else {
        None
    }
}

/// Checks that the bytes are valid UTF-8, as `vstd::utf8::valid_utf8`
/// defines it: a sequence of well-formed scalar encodings.
fn utf8_check(b: &[u8]) -> (r: bool)
    ensures
        r == valid_utf8(b@),
{
    let n = b.len();
    let mut i: usize = 0;
    proof {
        assert(b@.skip(0) =~= b@);
    }
    while i < n
        invariant
            i <= n,
            n == b@.len(),
            valid_utf8(b@) == valid_utf8(b@.skip(i as int)),
        decreases n - i,
    {
        match first_scalar_len(b, i) {
            Some(w) => {
                proof {
                    let rest = b@.skip(i as int);
                    assert(vstd::utf8::pop_first_scalar(rest) =~= b@.skip(i + w));
                }
                i = i + w;
            },
            None => {
                proof {
                    assert(!valid_utf8(b@.skip(i as int)));
                }
                return false;
            },
        }
    }
    proof {
        assert(b@.skip(n as int) =~= Seq::<u8>::empty());
        assert(valid_utf8(Seq::<u8>::empty()));
    }
    true
}

/// Parses `BND.ADDR`/`BND.PORT` out of a complete reply frame, exactly as
/// `spec_parse_bound_addr` describes.
pub fn parse_bound_addr(frame: &[u8]) -> (r: Result<TargetAddr, Error>)
    requires
        frame@.len() >= 5,
        frame@[3] == 0x01 || frame@[3] == 0x03 || frame@[3] == 0x04,
        frame@.len() == spec_reply_total_len(frame@[3], frame@[4]),
    ensures
        match r {
            Ok(t) => spec_parse_bound_addr(frame@) == Ok::<TargetView, Error>(t@) && t@.wf(),
            Err(e) => spec_parse_bound_addr(frame@) == Err::<TargetView, Error>(e),
        },
{
    let atyp = frame[3];
    if atyp == 0x01 {
        let b: [u8; 4] = [frame[4], frame[5], frame[6], frame[7]];
        let port: u16 = (frame[8] as u16) * 256 + (frame[9] as u16);
        proof {
            assert(b@ =~= frame@.subrange(4, 8));
        }
        Ok(TargetAddr::Ip(crate::addr::SockAddr { ip: HostIp::V4(b), port }))
    } else if atyp == 0x04 {
        let b: [u8; 16] = [
            frame[4],
            frame[5],
            frame[6],
            frame[7],
            frame[8],
            frame[9],
            frame[10],
            frame[11],
            frame[12],
            frame[13],
            frame[14],
            frame[15],
            frame[16],
            frame[17],
            frame[18],
            frame[19],
        ];
        let port: u16 = (frame[20] as u16) * 256 + (frame[21] as u16);
        proof {
            assert(b@ =~= frame@.subrange(4, 20));
        }
        Ok(TargetAddr::Ip(crate::addr::SockAddr { ip: HostIp::V6(b), port }))
    } else {
        let n = frame[4] as usize;
        if n == 0 {
            return Err(Error::InvalidTargetAddress("invalid address format"));
        }
        let name_slice = vstd::slice::slice_subrange(frame, 5, 5 + n);
        if !utf8_check(name_slice) {
            return Err(Error::InvalidTargetAddress("not a valid UTF-8 string"));
        }
        let name = vstd::slice::slice_to_vec(name_slice);
        let port: u16 = (frame[5 + n] as u16) * 256 + (frame[6 + n] as u16);
        Ok(TargetAddr::Domain(name, port))
    }
}

/// Re-encoding a request frame for the same command and target gives the
/// identical byte sequence: the frame is a pure function of the pair.
pub proof fn lemma_request_encoding_deterministic(
    c1: Command,
    t1: TargetView,
    c2: Command,
    t2: TargetView,
)
    requires
        c1 == c2,
        t1 == t2,
    ensures
        spec_request_frame(c1, t1) == spec_request_frame(c2, t2),
{
}

/// Parsing a reply frame inverts encoding: for any well-formed target whose
/// domain name (if any) is valid UTF-8, parsing the success-reply frame built
/// from the target's address bytes yields the target back, for the IPv4, IPv6
/// and domain address types alike.
pub proof fn lemma_reply_round_trip(t: TargetView)
    requires
        t.wf(),
        t matches TargetView::Domain(name, _) ==> valid_utf8(name),
    ensures
        spec_check_reply_header(seq![0x05u8, 0x00u8, 0x00u8] + spec_addr_bytes(t)) is None,
        spec_parse_bound_addr(seq![0x05u8, 0x00u8, 0x00u8] + spec_addr_bytes(t)) == Ok::<
            TargetView,
            Error,
        >(t),
{
    let f = seq![0x05u8, 0x00u8, 0x00u8] + spec_addr_bytes(t);
    match t {
        TargetView::Ip(b, port) => {
            if b.len() == 4 {
                assert(f.subrange(4, 8) =~= b);
            } else {
                assert(f.subrange(4, 20) =~= b);
            }
            assert(spec_port_of((port / 256) as u8, (port % 256) as u8) == port) by (bit_vector);
        },
        TargetView::Domain(name, port) => {
            let n = name.len() as int;
            assert(f[4] == name.len() as u8);
            assert(f[4] as int == n);
            assert(f.subrange(5, 5 + n) =~= name);
            assert(spec_port_of((port / 256) as u8, (port % 256) as u8) == port) by (bit_vector);
        },
    }
}

} // verus!
