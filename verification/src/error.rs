//! The error taxonomy of the library.
//!
//! Validation errors are raised before any I/O; protocol errors terminate a
//! handshake; `ProxyServerUnreachable` is raised when every candidate proxy
//! address has been tried without a successful TCP connect.

use vstd::prelude::*;

verus! {

/// Everything that can go wrong while validating input or negotiating with a
/// SOCKS5 proxy.
#[derive(Debug, Clone, Copy, PartialEq, Eq)]
pub enum Error {
    /// The target address could not be converted into the internal model.
    InvalidTargetAddress(&'static str),
    /// A username or password had an invalid length at construction.
    InvalidAuthValues(&'static str),
    /// The candidate proxy address sequence was exhausted without a
    /// successful TCP connect.
    ProxyServerUnreachable,
    /// A reply carried an unexpected protocol version byte.
    InvalidResponseVersion,
    /// The reserved byte of a reply was not zero.
    InvalidReservedByte,
    /// The reply carried an address type other than IPv4, IPv6 or domain.
    UnknownAddressType,
    /// The server chose an authentication method the client did not offer.
    UnknownAuthMethod,
    /// The server accepted none of the offered authentication methods.
    NoAcceptableAuthMethods,
    /// The username/password sub-negotiation failed; carries the status byte.
    PasswordAuthFailure(u8),
    /// SOCKS reply code 0x01.
    GeneralSocksServerFailure,
    /// SOCKS reply code 0x02.
    ConnectionNotAllowedByRuleset,
    /// SOCKS reply code 0x03.
    NetworkUnreachable,
    /// SOCKS reply code 0x04.
    HostUnreachable,
    /// SOCKS reply code 0x05.
    ConnectionRefused,
    /// SOCKS reply code 0x06.
    TtlExpired,
    /// SOCKS reply code 0x07.
    CommandNotSupported,
    /// SOCKS reply code 0x08.
    AddressTypeNotSupported,
}

} // verus!
