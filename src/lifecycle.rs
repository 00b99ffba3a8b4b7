//! The decisions of the accept loop, the connector and the relay loops,
//! taken on plain values that their owners report.
use vstd::prelude::*;

use crate::error::Error;
use crate::model::{Address, L4Protocol};

verus! {

/// The kinds of I/O failure that the decisions tell apart.
#[derive(Debug, Clone, Copy, PartialEq, Eq, Structural)]
pub enum IoFailure {
    ConnectionRefused,
    AddrInUse,
    AddrNotAvailable,
    TimedOut,
    WouldBlock,
    Other,
}

/// What a non-blocking look at a shutdown channel found.
#[derive(Debug, Clone, Copy, PartialEq, Eq, Structural)]
pub enum ShutdownPoll {
    /// A shutdown message was waiting.
    Requested,
    /// No message.
    Empty,
    /// Every sender is gone.
    Disconnected,
}

/// The error for a failed outbound connection.
pub fn conn_error(kind: IoFailure, addr: Address, protocol: L4Protocol) -> (r: Error)
    ensures
        kind == IoFailure::ConnectionRefused ==> r == (Error::ConnectionRefused { addr, protocol }),
        kind != IoFailure::ConnectionRefused ==> r == Error::Io,
{
    match kind {
        IoFailure::ConnectionRefused => Error::connection_refused(addr, protocol),
        _ => Error::Io,
    }
}

/// The error for a failed bind of the listening address.
pub fn addr_error(kind: IoFailure, addr: Address) -> (r: Error)
    ensures
        kind == IoFailure::AddrInUse ==> r == (Error::AddressAlreadyInUse { addr }),
        kind == IoFailure::AddrNotAvailable ==> r == (Error::AddressNotAvailable { addr }),
        kind != IoFailure::AddrInUse && kind != IoFailure::AddrNotAvailable ==> r == Error::Io,
{
    match kind {
        IoFailure::AddrInUse => Error::AddressAlreadyInUse { addr },
        IoFailure::AddrNotAvailable => Error::AddressNotAvailable { addr },
        _ => Error::Io,
    }
}

/// What the accept loop does next.
#[derive(Debug, Clone, Copy, PartialEq, Eq, Structural)]
pub enum AcceptDecision {
    /// Hand the accepted connection on.
    Yield,
    /// Accept again.
    Retry,
    /// End the loop.
    Stop,
}

/// Whether the accept loop may try to accept: not once shutdown was
/// requested or its channel is gone.
pub fn may_accept(poll: ShutdownPoll) -> (r: bool)
    ensures
        r == (poll == ShutdownPoll::Empty),
{
    match poll {
        ShutdownPoll::Empty => true,
        _ => false,
    }
}

/// After an accept: hand on a connection, retry after a timeout, stop on any other error.
pub fn accept_decision(outcome: Result<(), IoFailure>) -> (r: AcceptDecision)
    ensures
        outcome is Ok ==> r == AcceptDecision::Yield,
        outcome == Err::<(), IoFailure>(IoFailure::TimedOut) || outcome == Err::<(), IoFailure>(
            IoFailure::WouldBlock,
        ) ==> r == AcceptDecision::Retry,
        outcome matches Err(k) && k != IoFailure::TimedOut && k != IoFailure::WouldBlock ==> r
            == AcceptDecision::Stop,
{
    match outcome {
        Ok(()) => AcceptDecision::Yield,
        Err(IoFailure::TimedOut) => AcceptDecision::Retry,
        Err(IoFailure::WouldBlock) => AcceptDecision::Retry,
        Err(_) => AcceptDecision::Stop,
    }
}

/// What one copy from source to destination came to.
#[derive(Debug, Clone, Copy, PartialEq, Eq, Structural)]
pub enum CopyOutcome {
    /// The source reached its end.
    Eof,
    /// Some bytes were copied.
    Copied,
    /// A read or write timed out.
    TimedOut,
    /// Another I/O error.
    Failed,
}

/// What a relay half does next.
#[derive(Debug, Clone, Copy, PartialEq, Eq, Structural)]
pub enum RelayDecision {
    /// Copy again.
    Continue,
    /// End cleanly.
    Finish,
    /// End with the copy's error, telling the other half to end too.
    Fail,
}

/// Whether a relay half must end before copying: on a shutdown message.
/// A vanished shutdown channel is an error of its owner.
pub fn relay_check_termination(poll: ShutdownPoll) -> (r: Result<bool, Error>)
    ensures
        poll == ShutdownPoll::Requested ==> r == Ok::<bool, Error>(true),
        poll == ShutdownPoll::Empty ==> r == Ok::<bool, Error>(false),
        poll == ShutdownPoll::Disconnected ==> r matches Err(Error::Disconnected { .. }),
{
    match poll {
        ShutdownPoll::Requested => Ok(true),
        ShutdownPoll::Empty => Ok(false),
        ShutdownPoll::Disconnected => Err(Error::disconnected("relay".to_owned())),
    }
}

/// After one copy: end at the source's end; on a timeout go on unless the
/// other half has already ended; on any other error fail.
pub fn relay_decision(outcome: CopyOutcome, peer_exited: bool) -> (r: RelayDecision)
    ensures
        outcome == CopyOutcome::Eof ==> r == RelayDecision::Finish,
        outcome == CopyOutcome::Copied ==> r == RelayDecision::Continue,
        outcome == CopyOutcome::TimedOut ==> r == (if peer_exited {
            RelayDecision::Finish
        } else {
            RelayDecision::Continue
        }),
        outcome == CopyOutcome::Failed ==> r == RelayDecision::Fail,
{
    match outcome {
        CopyOutcome::Eof => RelayDecision::Finish,
        CopyOutcome::Copied => RelayDecision::Continue,
        CopyOutcome::TimedOut => if peer_exited {
            RelayDecision::Finish
        } else {
            RelayDecision::Continue
        },
        CopyOutcome::Failed => RelayDecision::Fail,
    }
}

/// Opens outbound TCP connections with a read / write timeout (milliseconds; `None` waits forever).
#[derive(Debug, Clone, Copy, PartialEq, Eq, Structural)]
pub struct TcpUdpConnector {
    pub rw_timeout: Option<u64>,
}

impl TcpUdpConnector {
    pub fn new(rw_timeout: Option<u64>) -> (r: Self)
        ensures
            r.rw_timeout == rw_timeout,
    {
        TcpUdpConnector { rw_timeout }
    }
}

/// Binds the listening socket; accepted connections get the read / write
/// timeout, and each accept waits at most the accept timeout (milliseconds).
#[derive(Debug, Clone, Copy, PartialEq, Eq, Structural)]
pub struct TcpBinder {
    pub rw_timeout: Option<u64>,
    pub accept_timeout: Option<u64>,
}

impl TcpBinder {
    pub fn new(rw_timeout: Option<u64>, accept_timeout: Option<u64>) -> (r: Self)
        ensures
            r.rw_timeout == rw_timeout,
            r.accept_timeout == accept_timeout,
    {
        TcpBinder { rw_timeout, accept_timeout }
    }
}

/// The listen backlog, close to the kernel's usual `somaxconn`.
pub const LISTEN_BACKLOG: i32 = 256;

} // verus!
