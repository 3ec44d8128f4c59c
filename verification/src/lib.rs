//! A SOCKS5 client library.
//!
//! The heart of the crate is an I/O-free negotiation engine: the caller (or a
//! thin driver around it) owns the TCP socket and feeds bytes in and out,
//! while the engine decides what to send, how many bytes to expect, and how to
//! interpret each reply frame of the SOCKS5 protocol (RFC 1928), including the
//! username/password sub-negotiation (RFC 1929) and CONNECT/BIND requests.

pub mod addr;
pub mod auth;
pub mod error;
pub mod frames;
pub mod handshake;
