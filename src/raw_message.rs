//! Byte-level field values of RFC 1928 messages.
use vstd::prelude::*;

use crate::codec::{spec_cmd_code, spec_cmd_of, spec_rep_code, spec_rep_of};
use crate::model::{Command, ConnectError, Method};

verus! {

/// Reply field values (section 6 of RFC 1928).
#[derive(Debug, Clone, Copy, PartialEq, Eq, Structural)]
pub enum ResponseCode {
    Success,
    Failure,
    RuleFailure,
    NetworkUnreachable,
    HostUnreachable,
    ConnectionRefused,
    TtlExpired,
    CommandNotSupported,
    AddrTypeNotSupported,
}

/// A byte that is no value of the named field.
#[derive(Debug, Clone, PartialEq, Eq)]
pub struct TryFromU8Error {
    /// source value
    pub value: u8,
    /// target type
    pub to: String,
}

impl ResponseCode {
    pub open spec fn spec_result(self) -> Result<(), ConnectError> {
        match self {
            ResponseCode::Success => Ok(()),
            ResponseCode::Failure => Err(ConnectError::ServerFailure),
            ResponseCode::RuleFailure => Err(ConnectError::ConnectionNotAllowed),
            ResponseCode::NetworkUnreachable => Err(ConnectError::NetworkUnreachable),
            ResponseCode::HostUnreachable => Err(ConnectError::HostUnreachable),
            ResponseCode::ConnectionRefused => Err(ConnectError::ConnectionRefused),
            ResponseCode::TtlExpired => Err(ConnectError::TtlExpired),
            ResponseCode::CommandNotSupported => Err(ConnectError::CommandNotSupported),
            ResponseCode::AddrTypeNotSupported => Err(ConnectError::AddrTypeNotSupported),
        }
    }

    /// The code that reports a connect result.
    pub fn from_result(r: Result<(), ConnectError>) -> (c: ResponseCode)
        ensures
            c.spec_result() == r,
    {
        match r {
            Ok(u) => {
                assert(r == Ok::<(), ConnectError>(()));
                ResponseCode::Success
            },
            Err(ConnectError::ServerFailure) => ResponseCode::Failure,
            Err(ConnectError::ConnectionNotAllowed) => ResponseCode::RuleFailure,
            Err(ConnectError::NetworkUnreachable) => ResponseCode::NetworkUnreachable,
            Err(ConnectError::HostUnreachable) => ResponseCode::HostUnreachable,
            Err(ConnectError::ConnectionRefused) => ResponseCode::ConnectionRefused,
            Err(ConnectError::TtlExpired) => ResponseCode::TtlExpired,
            Err(ConnectError::CommandNotSupported) => ResponseCode::CommandNotSupported,
            Err(ConnectError::AddrTypeNotSupported) => ResponseCode::AddrTypeNotSupported,
        }
    }

    /// The connect result that the code reports.
    pub fn into_result(self) -> (r: Result<(), ConnectError>)
        ensures
            r == self.spec_result(),
    {
        match self {
            ResponseCode::Success => Ok(()),
            ResponseCode::Failure => Err(ConnectError::ServerFailure),
            ResponseCode::RuleFailure => Err(ConnectError::ConnectionNotAllowed),
            ResponseCode::NetworkUnreachable => Err(ConnectError::NetworkUnreachable),
            ResponseCode::HostUnreachable => Err(ConnectError::HostUnreachable),
            ResponseCode::ConnectionRefused => Err(ConnectError::ConnectionRefused),
            ResponseCode::TtlExpired => Err(ConnectError::TtlExpired),
            ResponseCode::CommandNotSupported => Err(ConnectError::CommandNotSupported),
            ResponseCode::AddrTypeNotSupported => Err(ConnectError::AddrTypeNotSupported),
        }
    }

    /// The reply byte.
    pub fn code(&self) -> (r: u8)
        ensures
            r == spec_rep_code(self.spec_result()),
    {
        match self {
            ResponseCode::Success => 0,
            ResponseCode::Failure => 1,
            ResponseCode::RuleFailure => 2,
            ResponseCode::NetworkUnreachable => 3,
            ResponseCode::HostUnreachable => 4,
            ResponseCode::ConnectionRefused => 5,
            ResponseCode::TtlExpired => 6,
            ResponseCode::CommandNotSupported => 7,
            ResponseCode::AddrTypeNotSupported => 8,
        }
    }

    /// The code of a reply byte; fails on bytes above 8.
    pub fn from_u8(code: u8) -> (r: Result<Self, TryFromU8Error>)
        ensures
            spec_rep_of(code) matches Some(res) ==> (r matches Ok(c) && c.spec_result() == res),
            spec_rep_of(code) is None ==> (r matches Err(e) && e.value == code),
            r is Ok <==> code <= 8,
    {
        match code {
            0 => Ok(ResponseCode::Success),
            1 => Ok(ResponseCode::Failure),
            2 => Ok(ResponseCode::RuleFailure),
            3 => Ok(ResponseCode::NetworkUnreachable),
            4 => Ok(ResponseCode::HostUnreachable),
            5 => Ok(ResponseCode::ConnectionRefused),
            6 => Ok(ResponseCode::TtlExpired),
            7 => Ok(ResponseCode::CommandNotSupported),
            8 => Ok(ResponseCode::AddrTypeNotSupported),
            c => Err(TryFromU8Error { value: c, to: "ResponseCode".to_owned() }),
        }
    }
}

/// Client authentication methods as they stand on the wire.
#[derive(Debug, Clone, Copy, PartialEq, Eq, Structural)]
pub enum AuthMethods {
    NoAuth,
    GssApi,
    UserPass,
    IANAMethod(u8),
    Private(u8),
    NoMethods,
}

impl AuthMethods {
    pub open spec fn spec_method(self) -> Method {
        match self {
            AuthMethods::NoAuth => Method::NoAuth,
            AuthMethods::GssApi => Method::GssApi,
            AuthMethods::UserPass => Method::UserPass,
            AuthMethods::IANAMethod(c) => Method::IANAMethod(c),
            AuthMethods::Private(c) => Method::Private(c),
            AuthMethods::NoMethods => Method::NoMethods,
        }
    }

    pub fn code(&self) -> (r: u8)
        ensures
            r == self.spec_method().spec_code(),
    {
        match self {
            AuthMethods::NoAuth => 0x00,
            AuthMethods::GssApi => 0x01,
            AuthMethods::UserPass => 0x02,
            AuthMethods::IANAMethod(c) => *c,
            AuthMethods::Private(c) => *c,
            AuthMethods::NoMethods => 0xff,
        }
    }

    pub fn from_method(m: Method) -> (r: AuthMethods)
        ensures
            r.spec_method() == m,
    {
        match m {
            Method::NoAuth => AuthMethods::NoAuth,
            Method::GssApi => AuthMethods::GssApi,
            Method::UserPass => AuthMethods::UserPass,
            Method::IANAMethod(c) => AuthMethods::IANAMethod(c),
            Method::Private(c) => AuthMethods::Private(c),
            Method::NoMethods => AuthMethods::NoMethods,
        }
    }

    pub fn into_method(self) -> (r: Method)
        ensures
            r == self.spec_method(),
    {
        match self {
            AuthMethods::NoAuth => Method::NoAuth,
            AuthMethods::GssApi => Method::GssApi,
            AuthMethods::UserPass => Method::UserPass,
            AuthMethods::IANAMethod(c) => Method::IANAMethod(c),
            AuthMethods::Private(c) => Method::Private(c),
            AuthMethods::NoMethods => Method::NoMethods,
        }
    }

    /// The method of a byte: every byte names one.
    pub fn from_u8(code: u8) -> (r: AuthMethods)
        ensures
            r.spec_method() == Method::spec_from_code(code),
    {
        AuthMethods::from_method(Method::from_code(code))
    }
}

/// Address types (ATYP).
#[derive(Debug, Clone, Copy, PartialEq, Eq, Structural)]
pub enum AddrType {
    V4,
    Domain,
    V6,
}

impl AddrType {
    pub open spec fn spec_code(self) -> u8 {
        match self {
            AddrType::V4 => 1,
            AddrType::Domain => 3,
            AddrType::V6 => 4,
        }
    }

    pub fn code(&self) -> (r: u8)
        ensures
            r == self.spec_code(),
    {
        match self {
            AddrType::V4 => 1,
            AddrType::Domain => 3,
            AddrType::V6 => 4,
        }
    }

    /// The address type of a byte; fails on bytes other than 1, 3 and 4.
    pub fn try_from_u8(n: u8) -> (r: Result<AddrType, TryFromU8Error>)
        ensures
            r is Ok <==> (n == 1 || n == 3 || n == 4),
            r matches Ok(t) ==> t.spec_code() == n,
            r matches Err(e) ==> e.value == n,
    {
        match n {
            1 => Ok(AddrType::V4),
            3 => Ok(AddrType::Domain),
            4 => Ok(AddrType::V6),
            _ => Err(TryFromU8Error { value: n, to: "AddrType".to_owned() }),
        }
    }
}

/// Commands (CMD).
#[derive(Debug, Clone, Copy, PartialEq, Eq, Structural)]
pub enum SockCommand {
    Connect,
    Bind,
    UdpAssociate,
}

impl SockCommand {
    pub open spec fn spec_command(self) -> Command {
        match self {
            SockCommand::Connect => Command::Connect,
            SockCommand::Bind => Command::Bind,
            SockCommand::UdpAssociate => Command::UdpAssociate,
        }
    }

    pub fn from_command(c: Command) -> (r: SockCommand)
        ensures
            r.spec_command() == c,
    {
        match c {
            Command::Connect => SockCommand::Connect,
            Command::Bind => SockCommand::Bind,
            Command::UdpAssociate => SockCommand::UdpAssociate,
        }
    }

    pub fn into_command(self) -> (r: Command)
        ensures
            r == self.spec_command(),
    {
        match self {
            SockCommand::Connect => Command::Connect,
            SockCommand::Bind => Command::Bind,
            SockCommand::UdpAssociate => Command::UdpAssociate,
        }
    }

    pub fn code(&self) -> (r: u8)
        ensures
            r == spec_cmd_code(self.spec_command()),
    {
        match self {
            SockCommand::Connect => 1,
            SockCommand::Bind => 2,
            SockCommand::UdpAssociate => 3,
        }
    }

    /// The command of a byte; fails on bytes other than 1, 2 and 3.
    pub fn try_from_u8(n: u8) -> (r: Result<SockCommand, TryFromU8Error>)
        ensures
            spec_cmd_of(n) matches Some(c) ==> (r matches Ok(s) && s.spec_command() == c),
            spec_cmd_of(n) is None ==> (r matches Err(e) && e.value == n),
    {
        match n {
            1 => Ok(SockCommand::Connect),
            2 => Ok(SockCommand::Bind),
            3 => Ok(SockCommand::UdpAssociate),
            _ => Err(TryFromU8Error { value: n, to: "SockCommand".to_owned() }),
        }
    }
}

} // verus!
