//! The SOCKS5 negotiation state machine.
//!
//! A `Handshake` is an I/O-free driver: the caller owns the TCP socket and
//! asks the session what to do next. `begin_connect` pulls the next candidate
//! proxy address (failover is monotone: an address is never handed out
//! twice); `connect_succeeded` / `connect_failed` report the outcome of the
//! TCP connect; in a send phase the caller writes `to_send` bytes and reports
//! progress with `advance_write`; in a receive phase it reads at most
//! `read_wanted` bytes and hands them to `advance_read`, which never advances
//! the state until the armed frame is complete, and which yields the
//! negotiated bound address when the final reply has been parsed.

use vstd::prelude::*;
use vstd::string::StringSliceAdditionalSpecFns;
use crate::addr::TargetAddr;
use crate::auth::{Authentication, AuthView};
use crate::error::Error;
use crate::frames::{
    encode_method_selection, encode_password_frame, encode_request, parse_bound_addr, Command,
    spec_check_reply_header, spec_method_selection_frame, spec_parse_bound_addr,
    spec_password_frame, spec_request_frame,
};

verus! {

/// The scratch buffer holds at most one frame: 1 version byte, 1 length byte,
/// 255 username bytes, 1 length byte and 255 password bytes.
pub const BUF_SIZE: usize = 513;

/// Where the negotiation stands. Send phases drain `buf[ptr..len]` into the
/// socket; receive phases fill it from the socket.
#[derive(Debug, Clone, Copy, PartialEq, Eq)]
pub enum Phase {
    /// The next candidate proxy address is to be pulled.
    Uninitialized,
    /// A TCP connect to the current candidate is in flight.
    Connecting,
    /// Sending the method-selection frame.
    SendMethodSelection,
    /// Reading the 2-byte method-selection reply.
    RecvMethodSelection,
    /// Sending the RFC 1929 username/password frame.
    SendPasswordAuth,
    /// Reading the 2-byte sub-negotiation reply.
    RecvPasswordAuth,
    /// Sending the request frame.
    SendRequest,
    /// Reading the 4-byte reply header.
    RecvReplyHeader,
    /// Reading the 1-byte domain length of a reply.
    RecvReplyAddressLength,
    /// Reading the rest of `BND.ADDR`/`BND.PORT`.
    RecvReplyAddress,
    /// The negotiation has completed. No driver method accepts a finished
    /// session, so the scratch buffer is never read again; all further I/O
    /// belongs to the caller's socket alone.
    Done,
}

impl Phase {
    /// Phases in which the caller is to write `buf[ptr..len]` to the socket.
    pub open spec fn is_send(self) -> bool {
        self is SendMethodSelection || self is SendPasswordAuth || self is SendRequest
    }

    /// Phases in which the caller is to read `len - ptr` bytes from the socket.
    pub open spec fn is_recv(self) -> bool {
        self is RecvMethodSelection || self is RecvPasswordAuth || self is RecvReplyHeader
            || self is RecvReplyAddressLength || self is RecvReplyAddress
    }
}

/// `b` with `d` written at positions `at .. at + d.len()`.
pub open spec fn spec_fill(b: Seq<u8>, at: int, d: Seq<u8>) -> Seq<u8> {
    Seq::new(b.len(), |j: int| if at <= j < at + d.len() { d[j - at] } else { b[j] })
}

/// Writes all of `data` into `buf` starting at `at`.
fn fill_at(buf: &mut Vec<u8>, at: usize, data: &[u8])
    requires
        at + data@.len() <= old(buf)@.len(),
    ensures
        final(buf)@ == spec_fill(old(buf)@, at as int, data@),
{
    let n = data.len();
    let total = buf.len();
    let mut i: usize = 0;
    proof {
        assert(at + n <= total);
        assert(buf@ =~= spec_fill(old(buf)@, at as int, data@.take(0)));
    }
    while i < n
        invariant
            n == data@.len(),
            i <= n,
            at + n <= usize::MAX,
            at + n <= old(buf)@.len(),
            buf@.len() == old(buf)@.len(),
            buf@ == spec_fill(old(buf)@, at as int, data@.take(i as int)),
        decreases n - i,
    {
        let b = data[i];
        buf[at + i] = b;
        i = i + 1;
        proof {
            assert(buf@ =~= spec_fill(old(buf)@, at as int, data@.take(i as int)));
        }
    }
    proof {
        assert(data@.take(n as int) =~= data@);
    }
}

/// A SOCKS5 negotiation session: the per-connection mutable state of the
/// handshake driver.
pub struct Handshake {
    /// The authentication configuration; immutable for the session.
    pub auth: Authentication,
    /// The command to issue; immutable for the session.
    pub command: Command,
    /// The candidate proxy addresses, consumed in order by failover.
    pub proxies: Vec<crate::addr::SockAddr>,
    /// How many candidates have been handed out already.
    pub next_proxy: usize,
    /// The requested target.
    pub target: TargetAddr,
    /// Where the negotiation stands.
    pub phase: Phase,
    /// The scratch buffer; always `BUF_SIZE` bytes.
    pub buf: Vec<u8>,
    /// The cursor of the current frame: `buf[ptr..len]` is outstanding.
    pub ptr: usize,
    /// The end of the current frame window.
    pub len: usize,
}

impl Handshake {
    /// The frame window holds exactly `f`, with `ptr` inside it.
    pub open spec fn frame_is(self, f: Seq<u8>) -> bool {
        self.len == f.len() && self.buf@.subrange(0, self.len as int) == f
    }

    /// The already-received reply header is acceptable.
    pub open spec fn header_ok(self) -> bool {
        spec_check_reply_header(self.buf@.take(4)) is None
    }

    /// The session invariant: buffer geometry, validated inputs, and the
    /// phase-specific shape of the current frame window.
    pub open spec fn wf(self) -> bool {
        &&& self.buf@.len() == BUF_SIZE
        &&& self.ptr <= self.len <= BUF_SIZE
        &&& self.auth@.wf()
        &&& self.target@.wf()
        &&& self.next_proxy <= self.proxies@.len()
        &&& match self.phase {
            Phase::Uninitialized => true,
            Phase::Connecting => true,
            Phase::SendMethodSelection => self.frame_is(spec_method_selection_frame(self.auth@)),
            Phase::SendPasswordAuth => self.auth@ is Password && self.frame_is(
                spec_password_frame(self.auth@->Password_0, self.auth@->Password_1),
            ),
            Phase::SendRequest => self.frame_is(spec_request_frame(self.command, self.target@)),
            Phase::RecvMethodSelection => self.len == 2,
            Phase::RecvPasswordAuth => self.len == 2 && self.auth@ is Password,
            Phase::RecvReplyHeader => self.len == 4,
            Phase::RecvReplyAddressLength => self.len == 5 && self.ptr >= 4 && self.header_ok()
                && self.buf@[3] == 0x03,
            Phase::RecvReplyAddress => {
                &&& self.ptr >= 4
                &&& self.header_ok()
                &&& if self.buf@[3] == 0x01 {
                    self.len == 10
                } else if self.buf@[3] == 0x04 {
                    self.len == 22
                } else {
                    self.buf@[3] == 0x03 && self.ptr >= 5 && self.len == 7 + self.buf@[4]
                }
            },
            Phase::Done => true,
        }
    }

    /// The fields that negotiation never changes: configuration, target and
    /// the failover position are as in `other`.
    pub open spec fn same_session(self, other: Handshake) -> bool {
        &&& self.auth == other.auth
        &&& self.command == other.command
        &&& self.proxies == other.proxies
        &&& self.next_proxy == other.next_proxy
        &&& self.target == other.target
    }

    /// Loads a fresh outgoing frame into the scratch buffer.
    fn load_frame(&mut self, f: &Vec<u8>)
        requires
            f@.len() <= BUF_SIZE,
            old(self).buf@.len() == BUF_SIZE,
        ensures
            final(self).buf@.len() == BUF_SIZE,
            final(self).ptr == 0,
            final(self).len == f@.len(),
            final(self).frame_is(f@),
            final(self).phase == old(self).phase,
            final(self).same_session(*old(self)),
    {
        fill_at(&mut self.buf, 0, f.as_slice());
        self.ptr = 0;
        self.len = f.len();
        proof {
            assert(self.buf@.subrange(0, self.len as int) =~= f@);
        }
    }

    /// Builds a session. Validates the credentials (username first, then
    /// password) and the target domain length eagerly, before any I/O.
    pub fn new(
        proxies: Vec<crate::addr::SockAddr>,
        target: TargetAddr,
        auth: Authentication,
        command: Command,
    ) -> (r: Result<Handshake, Error>)
        ensures
            r is Ok <==> auth@.wf() && target@.wf(),
            r matches Ok(h) ==> {
                &&& h.wf()
                &&& h.auth == auth
                &&& h.command == command
                &&& h.proxies == proxies
                &&& h.next_proxy == 0
                &&& h.target == target
                &&& h.phase is Uninitialized
            },
            (auth@ matches AuthView::Password(u, _) && !(1 <= u.len() <= 255)) ==> r == Err::<
                Handshake,
                Error,
            >(Error::InvalidAuthValues("username length should between 1 to 255")),
            (auth@ matches AuthView::Password(u, p) && 1 <= u.len() <= 255 && !(1 <= p.len()
                <= 255)) ==> r == Err::<Handshake, Error>(
                Error::InvalidAuthValues("password length should between 1 to 255"),
            ),
            (auth@.wf() && (target@ matches crate::addr::TargetView::Domain(name, _)
                && name.len() > 255)) ==> r == Err::<Handshake, Error>(
                Error::InvalidTargetAddress("overlong domain"),
            ),
            (auth@.wf() && (target@ matches crate::addr::TargetView::Domain(name, _)
                && name.len() == 0)) ==> r == Err::<Handshake, Error>(
                Error::InvalidTargetAddress("invalid address format"),
            ),
    {
        match &auth {
            Authentication::Password { username, password } => {
                if username.len() < 1 || username.len() > 255 {
                    return Err(Error::InvalidAuthValues("username length should between 1 to 255"));
                }
                if password.len() < 1 || password.len() > 255 {
                    return Err(Error::InvalidAuthValues("password length should between 1 to 255"));
                }
            },
            Authentication::NoAuth => {},
        }
        match &target {
            TargetAddr::Domain(name, _) => {
                if name.len() > 255 {
                    return Err(Error::InvalidTargetAddress("overlong domain"));
                }
                if name.len() == 0 {
                    return Err(Error::InvalidTargetAddress("invalid address format"));
                }
            },
            TargetAddr::Ip(_) => {},
        }
        let buf: Vec<u8> = vec![0u8; BUF_SIZE];
        Ok(
            Handshake {
                auth,
                command,
                proxies,
                next_proxy: 0,
                target,
                phase: Phase::Uninitialized,
                buf,
                ptr: 0,
                len: 0,
            },
        )
    }

    /// Begins a CONNECT session with no authentication.
    pub fn connect(proxies: Vec<crate::addr::SockAddr>, target: TargetAddr) -> (r: Result<
        Handshake,
        Error,
    >)
        ensures
            r is Ok <==> target@.wf(),
            r matches Ok(h) ==> h.wf() && h.auth@ is NoAuth && h.command is Connect && h.proxies
                == proxies && h.next_proxy == 0 && h.target == target && h.phase is Uninitialized,
    {
        Handshake::new(proxies, target, Authentication::NoAuth, Command::Connect)
    }

    /// Begins a CONNECT session with username/password authentication.
    /// Credential lengths are validated first, before the target.
    pub fn connect_with_password(
        proxies: Vec<crate::addr::SockAddr>,
        target: TargetAddr,
        username: &str,
        password: &str,
    ) -> (r: Result<Handshake, Error>)
        ensures
            r is Ok <==> AuthView::Password(
                username.spec_bytes(),
                password.spec_bytes(),
            ).wf() && target@.wf(),
            r matches Ok(h) ==> h.wf() && h.auth@ == AuthView::Password(
                username.spec_bytes(),
                password.spec_bytes(),
            ) && h.command is Connect && h.proxies == proxies && h.next_proxy == 0 && h.target
                == target && h.phase is Uninitialized,
    {
        let auth = Authentication::password(username, password)?;
        Handshake::new(proxies, target, auth, Command::Connect)
    }

    /// Begins a BIND session with no authentication.
    pub fn bind(proxies: Vec<crate::addr::SockAddr>, target: TargetAddr) -> (r: Result<
        Handshake,
        Error,
    >)
        ensures
            r is Ok <==> target@.wf(),
            r matches Ok(h) ==> h.wf() && h.auth@ is NoAuth && h.command is Bind && h.proxies
                == proxies && h.next_proxy == 0 && h.target == target && h.phase is Uninitialized,
    {
        Handshake::new(proxies, target, Authentication::NoAuth, Command::Bind)
    }

    /// Begins a BIND session with username/password authentication.
    pub fn bind_with_password(
        proxies: Vec<crate::addr::SockAddr>,
        target: TargetAddr,
        username: &str,
        password: &str,
    ) -> (r: Result<Handshake, Error>)
        ensures
            r is Ok <==> AuthView::Password(
                username.spec_bytes(),
                password.spec_bytes(),
            ).wf() && target@.wf(),
            r matches Ok(h) ==> h.wf() && h.auth@ == AuthView::Password(
                username.spec_bytes(),
                password.spec_bytes(),
            ) && h.command is Bind && h.proxies == proxies && h.next_proxy == 0 && h.target
                == target && h.phase is Uninitialized,
    {
        let auth = Authentication::password(username, password)?;
        Handshake::new(proxies, target, auth, Command::Bind)
    }

    /// Resumes a negotiated BIND session at the second reply: the session is
    /// armed to read another 4-byte reply header on the same socket, with no
    /// proxy candidates left. `target` is the bound address of the first
    /// reply.
    pub fn accept_session(target: TargetAddr) -> (r: Result<Handshake, Error>)
        ensures
            r is Ok <==> target@.wf(),
            r matches Ok(h) ==> {
                &&& h.wf()
                &&& h.auth@ is NoAuth
                &&& h.command is Bind
                &&& h.proxies@.len() == 0
                &&& h.target == target
                &&& h.phase is RecvReplyHeader
                &&& h.ptr == 0
                &&& h.len == 4
            },
    {
        let mut h = Handshake::new(Vec::new(), target, Authentication::NoAuth, Command::Bind)?;
        h.phase = Phase::RecvReplyHeader;
        h.ptr = 0;
        h.len = 4;
        Ok(h)
    }

    /// Pulls the next candidate proxy address and moves to `Connecting`.
    /// Failover is monotone: the position only ever moves forward, so an
    /// address handed out once is never handed out again within the session.
    /// Fails with `ProxyServerUnreachable` when the sequence is exhausted.
    pub fn begin_connect(&mut self) -> (r: Result<crate::addr::SockAddr, Error>)
        requires
            old(self).wf(),
            old(self).phase is Uninitialized,
        ensures
            final(self).wf(),
            final(self).auth == old(self).auth,
            final(self).command == old(self).command,
            final(self).proxies == old(self).proxies,
            final(self).target == old(self).target,
            old(self).next_proxy < old(self).proxies@.len() ==> {
                &&& r matches Ok(a) && a == old(self).proxies@[old(self).next_proxy as int]
                &&& final(self).next_proxy == old(self).next_proxy + 1
                &&& final(self).phase is Connecting
            },
            old(self).next_proxy >= old(self).proxies@.len() ==> r == Err::<
                crate::addr::SockAddr,
                Error,
            >(Error::ProxyServerUnreachable) && *final(self) == *old(self),
    {
        if self.next_proxy < self.proxies.len() {
            let a = self.proxies[self.next_proxy];
            self.next_proxy = self.next_proxy + 1;
            self.phase = Phase::Connecting;
            Ok(a)
        } else {
            Err(Error::ProxyServerUnreachable)
        }
    }

    /// The TCP connect to the current candidate succeeded: the
    /// method-selection frame is armed for sending.
    pub fn connect_succeeded(&mut self)
        requires
            old(self).wf(),
            old(self).phase is Connecting,
        ensures
            final(self).wf(),
            final(self).same_session(*old(self)),
            final(self).phase is SendMethodSelection,
            final(self).ptr == 0,
            final(self).frame_is(spec_method_selection_frame(old(self).auth@)),
    {
        let f = encode_method_selection(&self.auth);
        self.load_frame(&f);
        self.phase = Phase::SendMethodSelection;
    }

    /// The TCP connect to the current candidate failed: fall back to the next
    /// candidate. The per-address error is not surfaced.
    pub fn connect_failed(&mut self)
        requires
            old(self).wf(),
            old(self).phase is Connecting,
        ensures
            final(self).wf(),
            final(self).same_session(*old(self)),
            final(self).phase is Uninitialized,
    {
        self.phase = Phase::Uninitialized;
    }

    /// The bytes still to be written to the socket: `buf[ptr..len]`.
    pub fn to_send(&self) -> (r: Vec<u8>)
        requires
            self.wf(),
        ensures
            r@ == self.buf@.subrange(self.ptr as int, self.len as int),
    {
        let s = vstd::slice::slice_subrange(self.buf.as_slice(), self.ptr, self.len);
        vstd::slice::slice_to_vec(s)
    }

    /// How many bytes the current frame still needs: `len - ptr`.
    pub fn read_wanted(&self) -> (r: usize)
        requires
            self.wf(),
        ensures
            r == self.len - self.ptr,
    {
        self.len - self.ptr
    }

    /// Reports that `n` more bytes of the current frame reached the socket.
    /// The state never advances until the whole frame has been written; a
    /// completed frame arms the read of the corresponding reply: 2 bytes
    /// after method selection or sub-negotiation, 4 header bytes after the
    /// request.
    pub fn advance_write(&mut self, n: usize)
        requires
            old(self).wf(),
            old(self).phase.is_send(),
            n <= old(self).len - old(self).ptr,
        ensures
            final(self).wf(),
            final(self).same_session(*old(self)),
            old(self).ptr + n < old(self).len ==> {
                &&& final(self).phase == old(self).phase
                &&& final(self).ptr == old(self).ptr + n
                &&& final(self).len == old(self).len
                &&& final(self).buf == old(self).buf
            },
            old(self).ptr + n == old(self).len ==> {
                &&& final(self).ptr == 0
                &&& match old(self).phase {
                    Phase::SendMethodSelection => final(self).phase is RecvMethodSelection
                        && final(self).len == 2,
                    Phase::SendPasswordAuth => final(self).phase is RecvPasswordAuth
                        && final(self).len == 2,
                    _ => final(self).phase is RecvReplyHeader && final(self).len == 4,
                }
            },
    {
        self.ptr = self.ptr + n;
        if self.ptr == self.len {
            match self.phase {
                Phase::SendMethodSelection => {
                    self.phase = Phase::RecvMethodSelection;
                },
                Phase::SendPasswordAuth => {
                    self.phase = Phase::RecvPasswordAuth;
                },
                _ => {
                    self.phase = Phase::RecvReplyHeader;
                },
            }
            self.ptr = 0;
            self.len = if self.phase_is_recv_reply_header() {
                4
            } else {
                2
            };
        }
    }

    /// Whether the session is waiting for a 4-byte reply header.
    fn phase_is_recv_reply_header(&self) -> (r: bool)
        ensures
            r == (self.phase is RecvReplyHeader),
    {
        match self.phase {
            Phase::RecvReplyHeader => true,
            _ => false,
        }
    }

    /// Feeds bytes read from the socket into the current frame window.
    ///
    /// While the armed frame is incomplete the phase and the window are kept
    /// unchanged: a read of `N` bytes never advances the state until exactly
    /// `N` bytes have been consumed. A completed frame is processed: replies
    /// are validated and either the next frame is armed, a protocol error is
    /// returned, or — once `BND.ADDR`/`BND.PORT` is parsed — the negotiated
    /// bound address is yielded and the session is `Done`.
    pub fn advance_read(&mut self, data: &[u8]) -> (r: Result<Option<TargetAddr>, Error>)
        requires
            old(self).wf(),
            old(self).phase.is_recv(),
            data@.len() <= old(self).len - old(self).ptr,
        ensures
            final(self).wf(),
            final(self).same_session(*old(self)),
            r is Err ==> {
                &&& final(self).phase == old(self).phase
                &&& final(self).len == old(self).len
                &&& final(self).ptr == old(self).len
                &&& final(self).buf@ == spec_fill(old(self).buf@, old(self).ptr as int, data@)
            },
            ({
                let fb = spec_fill(old(self).buf@, old(self).ptr as int, data@);
                if old(self).ptr + data@.len() < old(self).len {
                    &&& final(self).phase == old(self).phase
                    &&& final(self).len == old(self).len
                    &&& final(self).ptr == old(self).ptr + data@.len()
                    &&& final(self).buf@ == fb
                    &&& r == Ok::<Option<TargetAddr>, Error>(None)
                } else {
                    match old(self).phase {
                        Phase::RecvMethodSelection => {
                            if fb[0] != 0x05 {
                                r == Err::<Option<TargetAddr>, Error>(
                                    Error::InvalidResponseVersion,
                                )
                            } else if fb[1] == 0x00 {
                                &&& r == Ok::<Option<TargetAddr>, Error>(None)
                                &&& final(self).phase is SendRequest
                                &&& final(self).ptr == 0
                                &&& final(self).frame_is(
                                    spec_request_frame(old(self).command, old(self).target@),
                                )
                            } else if fb[1] == 0xff {
                                r == Err::<Option<TargetAddr>, Error>(
                                    Error::NoAcceptableAuthMethods,
                                )
                            } else if fb[1] == 0x02 && old(self).auth@ is Password {
                                &&& r == Ok::<Option<TargetAddr>, Error>(None)
                                &&& final(self).phase is SendPasswordAuth
                                &&& final(self).ptr == 0
                                &&& final(self).frame_is(
                                    spec_password_frame(
                                        old(self).auth@->Password_0,
                                        old(self).auth@->Password_1,
                                    ),
                                )
                            } else if fb[1] == 0x02 {
                                r == Err::<Option<TargetAddr>, Error>(
                                    Error::NoAcceptableAuthMethods,
                                )
                            } else {
                                r == Err::<Option<TargetAddr>, Error>(Error::UnknownAuthMethod)
                            }
                        },
                        Phase::RecvPasswordAuth => {
                            if fb[0] != 0x01 {
                                r == Err::<Option<TargetAddr>, Error>(
                                    Error::InvalidResponseVersion,
                                )
                            } else if fb[1] != 0x00 {
                                r == Err::<Option<TargetAddr>, Error>(
                                    Error::PasswordAuthFailure(fb[1]),
                                )
                            } else {
                                &&& r == Ok::<Option<TargetAddr>, Error>(None)
                                &&& final(self).phase is SendRequest
                                &&& final(self).ptr == 0
                                &&& final(self).frame_is(
                                    spec_request_frame(old(self).command, old(self).target@),
                                )
                            }
                        },
                        Phase::RecvReplyHeader => {
                            match spec_check_reply_header(fb.take(4)) {
                                Some(e) => r == Err::<Option<TargetAddr>, Error>(e),
                                None => {
                                    &&& r == Ok::<Option<TargetAddr>, Error>(None)
                                    &&& final(self).buf@ == fb
                                    &&& final(self).ptr == 4
                                    &&& if fb[3] == 0x01 {
                                        final(self).phase is RecvReplyAddress && final(self).len
                                            == 10
                                    } else if fb[3] == 0x04 {
                                        final(self).phase is RecvReplyAddress && final(self).len
                                            == 22
                                    } else {
                                        final(self).phase is RecvReplyAddressLength
                                            && final(self).len == 5
                                    }
                                },
                            }
                        },
                        Phase::RecvReplyAddressLength => {
                            &&& r == Ok::<Option<TargetAddr>, Error>(None)
                            &&& final(self).buf@ == fb
                            &&& final(self).ptr == 5
                            &&& final(self).phase is RecvReplyAddress
                            &&& final(self).len == 7 + fb[4]
                        },
                        Phase::RecvReplyAddress => {
                            match spec_parse_bound_addr(fb.take(old(self).len as int)) {
                                Ok(tv) => {
                                    &&& final(self).phase is Done
                                    &&& r matches Ok(Some(t)) && t@ == tv && t@.wf()
                                },
                                Err(e) => r == Err::<Option<TargetAddr>, Error>(e),
                            }
                        },
                        _ => false,
                    }
                }
            }),
    {
        fill_at(&mut self.buf, self.ptr, data);
        self.ptr = self.ptr + data.len();
        if self.ptr < self.len {
            return Ok(None);
        }
        match self.phase {
            Phase::RecvMethodSelection => {
                if self.buf[0] != 0x05 {
                    return Err(Error::InvalidResponseVersion);
                }
                let m = self.buf[1];
                if m == 0x00 {
                    let f = encode_request(self.command, &self.target);
                    self.load_frame(&f);
                    self.phase = Phase::SendRequest;
                    return Ok(None);
                }
                if m == 0xff {
                    return Err(Error::NoAcceptableAuthMethods);
                }
                if m == 0x02 {
                    let has_password = match &self.auth {
                        Authentication::Password { .. } => true,
                        Authentication::NoAuth => false,
                    };
                    if has_password {
                        let f = encode_password_frame(&self.auth);
                        self.load_frame(&f);
                        self.phase = Phase::SendPasswordAuth;
                        return Ok(None);
                    }
                    return Err(Error::NoAcceptableAuthMethods);
                }
                Err(Error::UnknownAuthMethod)
            },
            Phase::RecvPasswordAuth => {
                if self.buf[0] != 0x01 {
                    return Err(Error::InvalidResponseVersion);
                }
                let status = self.buf[1];
                if status != 0x00 {
                    return Err(Error::PasswordAuthFailure(status));
                }
                let f = encode_request(self.command, &self.target);
                self.load_frame(&f);
                self.phase = Phase::SendRequest;
                Ok(None)
            },
            Phase::RecvReplyHeader => {
                if self.buf[0] != 0x05 {
                    return Err(Error::InvalidResponseVersion);
                }
                if self.buf[2] != 0x00 {
                    return Err(Error::InvalidReservedByte);
                }
                let rep = self.buf[1];
                if rep != 0x00 {
                    return Err(crate::frames::reply_code_error(rep));
                }
                let atyp = self.buf[3];
                if atyp == 0x01 {
                    self.len = 10;
                    self.phase = Phase::RecvReplyAddress;
                    Ok(None)
                } else if atyp == 0x04 {
                    self.len = 22;
                    self.phase = Phase::RecvReplyAddress;
                    Ok(None)
                } else if atyp == 0x03 {
                    self.len = 5;
                    self.phase = Phase::RecvReplyAddressLength;
                    Ok(None)
                } else {
                    Err(Error::UnknownAddressType)
                }
            },
            Phase::RecvReplyAddressLength => {
                let n = self.buf[4] as usize;
                self.len = 7 + n;
                self.phase = Phase::RecvReplyAddress;
                Ok(None)
            },
            Phase::RecvReplyAddress => {
                let frame = vstd::slice::slice_subrange(self.buf.as_slice(), 0, self.len);
                let parsed = parse_bound_addr(frame);
                match parsed {
                    Ok(t) => {
                        self.phase = Phase::Done;
                        Ok(Some(t))
                    },
                    Err(e) => Err(e),
                }
            },
            _ => {
                proof {
                    assert(false);
                }
                Err(Error::InvalidResponseVersion)
            },
        }
    }
}

} // verus!
