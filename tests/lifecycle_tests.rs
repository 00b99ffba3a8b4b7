use gatekeeper::config::ServerConfig;
use gatekeeper::error::Error;
use gatekeeper::lifecycle::{
    accept_decision, addr_error, may_accept, relay_check_termination, relay_decision, AcceptDecision, CopyOutcome,
    IoFailure, RelayDecision, ShutdownPoll,
};
use gatekeeper::model::{Address, ConnectError, IpAddr, L4Protocol};
use gatekeeper::registry::SessionRegistry;
use gatekeeper::session::SessionId;

#[test]
fn relay_rules() {
    assert_eq!(relay_decision(CopyOutcome::Eof, false), RelayDecision::Finish);
    assert_eq!(relay_decision(CopyOutcome::Copied, true), RelayDecision::Continue);
    assert_eq!(relay_decision(CopyOutcome::TimedOut, false), RelayDecision::Continue);
    assert_eq!(relay_decision(CopyOutcome::TimedOut, true), RelayDecision::Finish);
    assert_eq!(relay_decision(CopyOutcome::Failed, false), RelayDecision::Fail);
    assert_eq!(relay_check_termination(ShutdownPoll::Requested), Ok(true));
    assert_eq!(relay_check_termination(ShutdownPoll::Empty), Ok(false));
    assert!(matches!(relay_check_termination(ShutdownPoll::Disconnected), Err(Error::Disconnected { .. })));
}

#[test]
fn accept_rules() {
    assert!(may_accept(ShutdownPoll::Empty));
    assert!(!may_accept(ShutdownPoll::Requested));
    assert!(!may_accept(ShutdownPoll::Disconnected));
    assert_eq!(accept_decision(Ok(())), AcceptDecision::Yield);
    assert_eq!(accept_decision(Err(IoFailure::TimedOut)), AcceptDecision::Retry);
    assert_eq!(accept_decision(Err(IoFailure::Other)), AcceptDecision::Stop);
}

#[test]
fn bind_errors() {
    let addr = Address::IpAddr(IpAddr::v4(0, 0, 0, 0), 1080);
    assert_eq!(addr_error(IoFailure::AddrInUse, addr.clone()), Error::AddressAlreadyInUse { addr: addr.clone() });
    assert_eq!(addr_error(IoFailure::AddrNotAvailable, addr.clone()), Error::AddressNotAvailable { addr: addr.clone() });
    assert_eq!(addr_error(IoFailure::Other, addr), Error::Io);
}

#[test]
fn error_reply_codes() {
    let addr = Address::IpAddr(IpAddr::v4(1, 1, 1, 1), 1);
    assert_eq!(Error::Io.cerr(), ConnectError::ServerFailure);
    assert_eq!(Error::connection_refused(addr.clone(), L4Protocol::Tcp).cerr(), ConnectError::ConnectionRefused);
    assert_eq!(Error::connection_not_allowed(addr, L4Protocol::Tcp).cerr(), ConnectError::ConnectionNotAllowed);
    assert_eq!(Error::HostUnreachable { host: "h".into(), port: 1 }.cerr(), ConnectError::HostUnreachable);
    assert_eq!(Error::DomainNotResolved { domain: "h".into(), port: 1 }.cerr(), ConnectError::NetworkUnreachable);
    assert_eq!(Error::NoAcceptableMethod.cerr(), ConnectError::ConnectionNotAllowed);
}

#[test]
fn registry_tracks_live_sessions() {
    let mut reg: SessionRegistry<&'static str> = SessionRegistry::new().unwrap();
    let a = reg.next_session_id().unwrap();
    reg.insert(a, "a");
    let mut b = reg.next_session_id().unwrap();
    while b == a {
        b = reg.next_session_id().unwrap();
    }
    reg.insert(b, "b");
    assert!(reg.contains(a));
    assert_eq!(reg.accept_candidate(a.0), None);
    assert_eq!(reg.len(), 2);
    assert_eq!(reg.remove(a), Some("a"));
    assert_eq!(reg.remove(a), None);
    assert!(!reg.contains(a));
    assert_eq!(reg.accept_candidate(a.0), Some(SessionId(a.0)));
    let all = reg.take_all();
    assert_eq!(all.len(), 1);
    assert_eq!(reg.len(), 0);
}

#[test]
fn config_defaults() {
    let c = ServerConfig::default();
    assert_eq!(c.server_addr(), Address::IpAddr(IpAddr::V4(0), 1080));
    assert_eq!(c.client_rw_timeout, Some(2000));
    assert_eq!(c.server_rw_timeout, Some(5000));
    assert_eq!(c.accept_timeout, Some(3000));
    assert!(c.connect_rule().is_any());
}
