//! The decisions of the TCP wrappers: how host socket errors read as I/O
//! errors, which address family a socket takes, and which error a failed
//! connection over several addresses reports.

use vstd::prelude::*;
use crate::io::{IoError, IoErrorKind};

verus! {

/// The host's socket error codes.
#[derive(Clone, Copy, Debug, PartialEq, Eq, Structural)]
pub enum NetErrorCode {
    Unknown,
    AccessDenied,
    NotSupported,
    InvalidArgument,
    OutOfMemory,
    Timeout,
    ConcurrencyConflict,
    NotInProgress,
    WouldBlock,
    InvalidState,
    NewSocketLimit,
    AddressNotBindable,
    AddressInUse,
    RemoteUnreachable,
    ConnectionRefused,
    ConnectionReset,
    ConnectionAborted,
    DatagramTooLarge,
    NameUnresolvable,
    TemporaryResolverFailure,
    PermanentResolverFailure,
}

/// The I/O error kind a host socket error reads as.
pub open spec fn io_kind_spec(code: NetErrorCode) -> IoErrorKind {
    match code {
        NetErrorCode::AccessDenied => IoErrorKind::PermissionDenied,
        NetErrorCode::NotSupported => IoErrorKind::Unsupported,
        NetErrorCode::InvalidArgument => IoErrorKind::InvalidInput,
        NetErrorCode::OutOfMemory => IoErrorKind::OutOfMemory,
        NetErrorCode::Timeout => IoErrorKind::TimedOut,
        NetErrorCode::WouldBlock => IoErrorKind::WouldBlock,
        NetErrorCode::InvalidState => IoErrorKind::InvalidData,
        NetErrorCode::AddressInUse => IoErrorKind::AddrInUse,
        NetErrorCode::ConnectionRefused => IoErrorKind::ConnectionRefused,
        NetErrorCode::ConnectionReset => IoErrorKind::ConnectionReset,
        NetErrorCode::ConnectionAborted => IoErrorKind::ConnectionAborted,
        NetErrorCode::ConcurrencyConflict => IoErrorKind::AlreadyExists,
        _ => IoErrorKind::Other,
    }
}

/// The I/O error for a host socket error.
pub fn to_io_err(code: NetErrorCode) -> (r: IoError)
    ensures
        r.kind == io_kind_spec(code),
        r.message.is_none(),
{
    let kind = match code {
        NetErrorCode::AccessDenied => IoErrorKind::PermissionDenied,
        NetErrorCode::NotSupported => IoErrorKind::Unsupported,
        NetErrorCode::InvalidArgument => IoErrorKind::InvalidInput,
        NetErrorCode::OutOfMemory => IoErrorKind::OutOfMemory,
        NetErrorCode::Timeout => IoErrorKind::TimedOut,
        NetErrorCode::WouldBlock => IoErrorKind::WouldBlock,
        NetErrorCode::InvalidState => IoErrorKind::InvalidData,
        NetErrorCode::AddressInUse => IoErrorKind::AddrInUse,
        NetErrorCode::ConnectionRefused => IoErrorKind::ConnectionRefused,
        NetErrorCode::ConnectionReset => IoErrorKind::ConnectionReset,
        NetErrorCode::ConnectionAborted => IoErrorKind::ConnectionAborted,
        NetErrorCode::ConcurrencyConflict => IoErrorKind::AlreadyExists,
        _ => IoErrorKind::Other,
    };
    IoError::from_kind(kind)
}

/// A socket address, as the host's sockets take it.
#[derive(Clone, Copy, Debug)]
pub enum SocketAddr {
    V4 { address: (u8, u8, u8, u8), port: u16 },
    V6 {
        address: (u16, u16, u16, u16, u16, u16, u16, u16),
        port: u16,
        flow_info: u32,
        scope_id: u32,
    },
}

/// The address families of sockets.
#[derive(Clone, Copy, Debug, PartialEq, Eq, Structural)]
pub enum AddressFamily {
    Ipv4,
    Ipv6,
}

/// The family of socket that serves an address.
pub fn family_of(addr: &SocketAddr) -> (r: AddressFamily)
    ensures
        addr is V4 <==> r == AddressFamily::Ipv4,
{
    match addr {
        SocketAddr::V4 { .. } => AddressFamily::Ipv4,
        SocketAddr::V6 { .. } => AddressFamily::Ipv6,
    }
}

/// The remote address a connection is started to: IPv4 addresses only,
/// IPv6 connections being unsupported so far.
pub fn connect_target(addr: SocketAddr) -> (r: Result<SocketAddr, IoError>)
    ensures
        addr is V4 ==> r == Ok::<SocketAddr, IoError>(addr),
        addr is V6 ==> r.is_err() && r.unwrap_err().kind == IoErrorKind::Unsupported,
{
    match addr {
        SocketAddr::V4 { .. } => Ok(addr),
        SocketAddr::V6 { .. } => Err(IoError::from_kind(IoErrorKind::Unsupported)),
    }
}

/// The failures of a connection tried over several addresses in turn.
#[derive(Clone, Debug)]
pub struct ConnectAttempts {
    pub last_error: Option<IoError>,
}

impl ConnectAttempts {
    pub fn new() -> (r: ConnectAttempts)
        ensures
            r.last_error.is_none(),
    {
        ConnectAttempts { last_error: None }
    }

    /// Records a failed attempt.
    pub fn failed(&mut self, e: IoError)
        ensures
            final(self).last_error == Some(e),
    {
        self.last_error = Some(e);
    }

    /// The error once every address failed: that of the last attempt, or,
    /// where there was no address at all, an invalid input.
    pub fn into_error(self) -> (r: IoError)
        ensures
            self.last_error.is_some() ==> r == self.last_error.unwrap(),
            self.last_error.is_none() ==> r.kind == IoErrorKind::InvalidInput && r.message.is_some()
                && r.message.unwrap()@ == "could not resolve to any address"@,
    {
        match self.last_error {
            Some(e) => e,
            None => IoError {
                kind: IoErrorKind::InvalidInput,
                message: Some(String::from_str("could not resolve to any address")),
            },
        }
    }
}

} // verus!
