//! Authentication configuration: none, or RFC 1929 username/password.
//!
//! Credential lengths are validated eagerly at construction, before any I/O:
//! each field must encode to between 1 and 255 bytes of UTF-8.

use vstd::prelude::*;
use vstd::string::StrSliceExecFns;
use vstd::string::StringSliceAdditionalSpecFns;
use crate::error::Error;

verus! {

/// The mathematical model of an authentication configuration: nothing, or the
/// UTF-8 bytes of the username and the password.
pub enum AuthView {
    NoAuth,
    Password(Seq<u8>, Seq<u8>),
}

impl AuthView {
    /// Well-formed credentials hold between 1 and 255 bytes each.
    pub open spec fn wf(self) -> bool {
        match self {
            AuthView::NoAuth => true,
            AuthView::Password(u, p) => 1 <= u.len() <= 255 && 1 <= p.len() <= 255,
        }
    }

    /// The SOCKS5 method identifier: 0x00 for no authentication, 0x02 for
    /// username/password.
    pub open spec fn id_spec(self) -> u8 {
        match self {
            AuthView::NoAuth => 0x00,
            AuthView::Password(_, _) => 0x02,
        }
    }
}

/// Authentication methods offered to the proxy.
#[derive(Debug, PartialEq, Eq)]
pub enum Authentication {
    /// No authentication (method 0x00).
    NoAuth,
    /// RFC 1929 username/password (method 0x02), held as UTF-8 bytes.
    Password { username: Vec<u8>, password: Vec<u8> },
}

impl View for Authentication {
    type V = AuthView;

    open spec fn view(&self) -> AuthView {
        match self {
            Authentication::NoAuth => AuthView::NoAuth,
            Authentication::Password { username, password } => AuthView::Password(
                username@,
                password@,
            ),
        }
    }
}

impl Authentication {
    /// The SOCKS5 method identifier of this configuration.
    pub fn id(&self) -> (r: u8)
        ensures
            r == self@.id_spec(),
    {
        match self {
            Authentication::Password { .. } => 0x02,
            Authentication::NoAuth => 0x00,
        }
    }

    /// Builds a username/password configuration from UTF-8 strings.
    ///
    /// Fails with `InvalidAuthValues`, before any I/O, if and only if either
    /// field encodes to 0 or more than 255 bytes; the username is checked
    /// first.
    pub fn password(username: &str, password: &str) -> (r: Result<Authentication, Error>)
        ensures
            r is Ok <==> AuthView::Password(username.spec_bytes(), password.spec_bytes()).wf(),
            r matches Ok(a) ==> a@ == AuthView::Password(
                username.spec_bytes(),
                password.spec_bytes(),
            ),
            !(1 <= username.spec_bytes().len() <= 255) ==> r == Err::<Authentication, Error>(
                Error::InvalidAuthValues("username length should between 1 to 255"),
            ),
            (1 <= username.spec_bytes().len() <= 255 && !(1 <= password.spec_bytes().len()
                <= 255)) ==> r == Err::<Authentication, Error>(
                Error::InvalidAuthValues("password length should between 1 to 255"),
            ),
    {
        let u = username.as_bytes_vec();
        if u.len() < 1 || u.len() > 255 {
            return Err(Error::InvalidAuthValues("username length should between 1 to 255"));
        }
        let p = password.as_bytes_vec();
        if p.len() < 1 || p.len() > 255 {
            return Err(Error::InvalidAuthValues("password length should between 1 to 255"));
        }
        Ok(Authentication::Password { username: u, password: p })
    }
}

} // verus!
