//! Errors of the proxy core and their SOCKS5 reply codes.
use vstd::prelude::*;

use crate::model::{Address, Command, ConnectError, L4Protocol};

verus! {

#[derive(Debug, Clone, PartialEq, Eq)]
pub enum Error {
    Io,
    Poisoned(String),
    Disconnected { name: String },
    MessageFormat { message: String },
    /// A value cannot be written in the wire format (a domain name over 255 bytes).
    InvalidInput { message: String },
    Authentication,
    NoAcceptableMethod,
    UnrecognizedUsernamePassword,
    CommandNotSupported { cmd: Command },
    HostUnreachable { host: String, port: u16 },
    DomainNotResolved { domain: String, port: u16 },
    PacketSizeLimitExceeded { size: usize, limit: usize },
    AddressAlreadyInUse { addr: Address },
    AddressNotAvailable { addr: Address },
    /// rejected by the connection rules
    ConnectionNotAllowed { addr: Address, protocol: L4Protocol },
    /// rejected by the remote host
    ConnectionRefused { addr: Address, protocol: L4Protocol },
}

/// The reply code that reports an error to the client.
pub open spec fn spec_cerr(e: Error) -> ConnectError {
    match e {
        Error::Authentication | Error::NoAcceptableMethod | Error::UnrecognizedUsernamePassword
        | Error::ConnectionNotAllowed { .. } => ConnectError::ConnectionNotAllowed,
        Error::CommandNotSupported { .. } => ConnectError::CommandNotSupported,
        Error::HostUnreachable { .. } => ConnectError::HostUnreachable,
        Error::DomainNotResolved { .. } => ConnectError::NetworkUnreachable,
        Error::ConnectionRefused { .. } => ConnectError::ConnectionRefused,
        _ => ConnectError::ServerFailure,
    }
}

impl Error {
    pub fn disconnected(name: String) -> (r: Self)
        ensures
            r == (Error::Disconnected { name }),
    {
        Error::Disconnected { name }
    }

    pub fn message_fmt(message: String) -> (r: Self)
        ensures
            r == (Error::MessageFormat { message }),
    {
        Error::MessageFormat { message }
    }

    pub fn command_not_supported(cmd: Command) -> (r: Self)
        ensures
            r == (Error::CommandNotSupported { cmd }),
    {
        Error::CommandNotSupported { cmd }
    }

    pub fn connection_not_allowed(addr: Address, protocol: L4Protocol) -> (r: Self)
        ensures
            r == (Error::ConnectionNotAllowed { addr, protocol }),
    {
        Error::ConnectionNotAllowed { addr, protocol }
    }

    pub fn connection_refused(addr: Address, protocol: L4Protocol) -> (r: Self)
        ensures
            r == (Error::ConnectionRefused { addr, protocol }),
    {
        Error::ConnectionRefused { addr, protocol }
    }

    /// The reply code that reports this error to the client.
    pub fn cerr(&self) -> (r: ConnectError)
        ensures
            r == spec_cerr(*self),
    {
        match self {
            Error::Io => ConnectError::ServerFailure,
            Error::Poisoned(_) => ConnectError::ServerFailure,
            Error::Disconnected { .. } => ConnectError::ServerFailure,
            Error::MessageFormat { .. } => ConnectError::ServerFailure,
            Error::InvalidInput { .. } => ConnectError::ServerFailure,
            Error::Authentication => ConnectError::ConnectionNotAllowed,
            Error::NoAcceptableMethod => ConnectError::ConnectionNotAllowed,
            Error::UnrecognizedUsernamePassword => ConnectError::ConnectionNotAllowed,
            Error::CommandNotSupported { .. } => ConnectError::CommandNotSupported,
            Error::HostUnreachable { .. } => ConnectError::HostUnreachable,
            Error::DomainNotResolved { .. } => ConnectError::NetworkUnreachable,
            Error::PacketSizeLimitExceeded { .. } => ConnectError::ServerFailure,
            Error::AddressAlreadyInUse { .. } => ConnectError::ServerFailure,
            Error::AddressNotAvailable { .. } => ConnectError::ServerFailure,
            Error::ConnectionNotAllowed { .. } => ConnectError::ConnectionNotAllowed,
            Error::ConnectionRefused { .. } => ConnectError::ConnectionRefused,
        }
    }
}

} // verus!
