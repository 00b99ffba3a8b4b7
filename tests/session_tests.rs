use gatekeeper::error::Error;
use gatekeeper::lifecycle::{conn_error, IoFailure};
use gatekeeper::model::{Address, Command, ConnectRequest, IpAddr, L4Protocol, Method, MethodCandidates, ProtocolVersion};
use gatekeeper::rule::ConnectRule;
use gatekeeper::session::{
    AuthService, DriveOutcome, NoAuthService, RejectService, Session, SessionAction, SessionEvent, SessionId, SessionState,
};
use gatekeeper::stream::{BufferStream, ReadWriteStream};

fn server_addr() -> Address {
    Address::IpAddr(IpAddr::v4(0, 0, 0, 0), 1080)
}

fn client_bytes(cands: MethodCandidates, req: Option<ConnectRequest>) -> Vec<u8> {
    let mut s = ReadWriteStream::new(BufferStream::new());
    s.send_method_candidates(cands).unwrap();
    if let Some(req) = req {
        s.send_connect_request(req).unwrap();
    }
    s.into_inner().written().clone()
}

/// Runs a session on `input`; the upstream connection attempt ends as `connect` says.
fn run<A: AuthService>(
    auth: A,
    rule: ConnectRule,
    input: Vec<u8>,
    connect: impl Fn(&Address) -> Result<(), Error>,
) -> (DriveOutcome, Vec<u8>) {
    let mut session = Session::new(SessionId(1), ProtocolVersion(5), auth, server_addr(), rule);
    let mut strm = ReadWriteStream::new(BufferStream::with_buffer(input, vec![]));
    let mut outcome = session.drive(&mut strm);
    while let DriveOutcome::Negotiated = outcome {
        outcome = session.drive(&mut strm);
    }
    if let DriveOutcome::Connect(addr) = &outcome {
        let result = connect(addr);
        outcome = session.connected(&mut strm, result);
    }
    let out = strm.into_inner().written().clone();
    (outcome, out)
}

fn upstream_ok(_: &Address) -> Result<(), Error> {
    Ok(())
}

#[test]
fn session_no_acceptable_method() {
    let (outcome, out) = run(RejectService {}, ConnectRule::any(), vec![5, 1, 0], upstream_ok);
    assert!(matches!(outcome, DriveOutcome::Closed(Error::NoAcceptableMethod)));
    assert_eq!(out, vec![5, 0xff]);
}

#[test]
fn session_command_not_supported() {
    let addr = Address::IpAddr(IpAddr::v4(192, 168, 0, 1), 5123);
    let input = client_bytes(MethodCandidates::new(&[Method::NoAuth]), Some(ConnectRequest::udp_associate(addr)));
    let (outcome, out) = run(NoAuthService::new(), ConnectRule::any(), input, upstream_ok);
    match outcome {
        DriveOutcome::Closed(e) => assert_eq!(e, Error::command_not_supported(Command::UdpAssociate)),
        other => panic!("unexpected outcome: {:?}", other),
    }
    assert_eq!(out, vec![5, 0, 5, 7, 0, 1, 0, 0, 0, 0, 4, 0x38]);
}

#[test]
fn session_connect_not_allowed() {
    let addr = Address::IpAddr(IpAddr::v4(192, 168, 0, 1), 5123);
    let input = client_bytes(MethodCandidates::new(&[Method::NoAuth]), Some(ConnectRequest::connect_to(addr.clone())));
    let (outcome, out) = run(NoAuthService::new(), ConnectRule::none(), input, upstream_ok);
    match outcome {
        DriveOutcome::Closed(e) => assert_eq!(e, Error::connection_not_allowed(addr, L4Protocol::Tcp)),
        other => panic!("unexpected outcome: {:?}", other),
    }
    assert_eq!(out, vec![5, 0, 5, 2, 0, 1, 0, 0, 0, 0, 4, 0x38]);
}

#[test]
fn session_connection_refused() {
    let addr = Address::IpAddr(IpAddr::v4(192, 168, 0, 1), 5123);
    let input = client_bytes(MethodCandidates::new(&[Method::NoAuth]), Some(ConnectRequest::connect_to(addr.clone())));
    let refused = |a: &Address| Err(conn_error(IoFailure::ConnectionRefused, a.clone(), L4Protocol::Tcp));
    let (outcome, out) = run(NoAuthService::new(), ConnectRule::any(), input, refused);
    match outcome {
        DriveOutcome::Closed(e) => assert_eq!(e, Error::connection_refused(addr, L4Protocol::Tcp)),
        other => panic!("unexpected outcome: {:?}", other),
    }
    assert_eq!(out, vec![5, 0, 5, 5, 0, 1, 0, 0, 0, 0, 4, 0x38]);
}

#[test]
fn connect_then_relay_bytes_on_wire() {
    let input = vec![5, 1, 0, 5, 1, 0, 1, 1, 2, 3, 4, 0, 5];
    let mut target = None;
    let (outcome, out) = {
        let mut session = Session::new(SessionId(7), ProtocolVersion(5), NoAuthService::new(), server_addr(), ConnectRule::any());
        let mut strm = ReadWriteStream::new(BufferStream::with_buffer(input, vec![]));
        assert!(matches!(session.drive(&mut strm), DriveOutcome::Negotiated));
        let first = session.drive(&mut strm);
        if let DriveOutcome::Connect(a) = first {
            target = Some(a);
        }
        let outcome = session.connected(&mut strm, Ok(()));
        assert_eq!(session.current_state(), SessionState::Relaying);
        (outcome, strm.into_inner().written().clone())
    };
    assert_eq!(target, Some(Address::IpAddr(IpAddr::v4(1, 2, 3, 4), 5)));
    assert!(matches!(outcome, DriveOutcome::Relay));
    assert_eq!(out, vec![5, 0, 5, 0, 0, 1, 0, 0, 0, 0, 4, 0x38]);
}

#[test]
fn udp_associate_gets_command_not_supported() {
    let input = vec![5, 1, 0, 5, 3, 0, 1, 1, 2, 3, 4, 0, 5];
    let (outcome, out) = run(NoAuthService::new(), ConnectRule::any(), input, upstream_ok);
    assert!(matches!(outcome, DriveOutcome::Closed(Error::CommandNotSupported { cmd: Command::UdpAssociate })));
    assert_eq!(&out[..4], &[5, 0, 5, 7]);
    assert_eq!(out[4], 0);
}

#[test]
fn rejecting_authorizer_sends_no_methods() {
    let (outcome, out) = run(RejectService {}, ConnectRule::any(), vec![5, 1, 0], upstream_ok);
    assert!(matches!(outcome, DriveOutcome::Closed(Error::NoAcceptableMethod)));
    assert_eq!(out, vec![5, 0xff]);
}

#[test]
fn refused_upstream_gets_code_five() {
    let input = vec![5, 1, 0, 5, 1, 0, 1, 0xc0, 0xa8, 0, 1, 0x14, 0x03];
    let refused = |a: &Address| {
        assert_eq!(a, &Address::IpAddr(IpAddr::v4(192, 168, 0, 1), 5123));
        Err(conn_error(IoFailure::ConnectionRefused, a.clone(), L4Protocol::Tcp))
    };
    let (outcome, out) = run(NoAuthService::new(), ConnectRule::any(), input, refused);
    assert!(matches!(outcome, DriveOutcome::Closed(Error::ConnectionRefused { .. })));
    assert_eq!(out, vec![5, 0, 5, 5, 0, 1, 0, 0, 0, 0, 4, 0x38]);
}

#[test]
fn deny_all_rule_gets_code_two() {
    let input = vec![5, 1, 0, 5, 1, 0, 1, 0xc0, 0xa8, 0, 1, 0, 80];
    let (outcome, out) = run(NoAuthService::new(), ConnectRule::none(), input, upstream_ok);
    assert!(matches!(outcome, DriveOutcome::Closed(Error::ConnectionNotAllowed { .. })));
    assert_eq!(out, vec![5, 0, 5, 2, 0, 1, 0, 0, 0, 0, 4, 0x38]);
}

#[test]
fn undecodable_request_gets_no_reply() {
    let input = vec![5, 1, 0, 5, 1, 7, 1, 1, 2, 3, 4, 0, 5];
    let (outcome, out) = run(NoAuthService::new(), ConnectRule::any(), input, upstream_ok);
    assert!(matches!(outcome, DriveOutcome::Closed(Error::MessageFormat { .. })));
    assert_eq!(out, vec![5, 0]);
}

#[test]
fn partial_input_waits_for_more() {
    let mut session = Session::new(SessionId(2), ProtocolVersion(5), NoAuthService::new(), server_addr(), ConnectRule::any());
    let mut strm = ReadWriteStream::new(BufferStream::with_buffer(vec![5, 1], vec![]));
    assert!(matches!(session.drive(&mut strm), DriveOutcome::NeedInput));
    strm.stream().push_input(&mut vec![0, 5, 1, 0]);
    assert!(matches!(session.drive(&mut strm), DriveOutcome::Negotiated));
    assert!(matches!(session.drive(&mut strm), DriveOutcome::NeedInput));
    assert_eq!(session.current_state(), SessionState::Requesting);
    strm.stream().push_input(&mut vec![1, 1, 2, 3, 4, 0, 5]);
    assert!(matches!(session.drive(&mut strm), DriveOutcome::Connect(_)));
    assert!(matches!(session.drive(&mut strm), DriveOutcome::Pending));
}

#[test]
fn step_sends_one_reply_at_most() {
    let mut session = Session::new(SessionId(3), ProtocolVersion(5), NoAuthService::new(), server_addr(), ConnectRule::any());
    let acts = session.step(SessionEvent::Candidates(MethodCandidates::new(&[Method::GssApi, Method::NoAuth])));
    assert!(matches!(acts.as_slice(), [SessionAction::SendSelection(s)] if s.method == Method::NoAuth));
    let req = ConnectRequest::connect_to(Address::Domain("example.com".into(), 80));
    let acts = session.step(SessionEvent::Request(req));
    assert!(matches!(acts.as_slice(), [SessionAction::Connect(Address::Domain(_, 80))]));
    let acts = session.step(SessionEvent::ConnectFailed(Error::DomainNotResolved { domain: "example.com".into(), port: 80 }));
    match acts.as_slice() {
        [SessionAction::SendReply(r), SessionAction::Close(_)] => {
            assert_eq!(r.connect_result, Err(gatekeeper::model::ConnectError::NetworkUnreachable))
        }
        other => panic!("unexpected actions: {:?}", other),
    }
    assert!(session.step(SessionEvent::Connected).is_empty());
    assert_eq!(session.current_state(), SessionState::Closed);
}

#[test]
fn no_auth_service_selects_no_auth_only() {
    let s = NoAuthService::new();
    assert_eq!(s.select(&[Method::GssApi, Method::NoAuth]), Some(Method::NoAuth));
    assert_eq!(s.select(&[Method::GssApi, Method::UserPass]), None);
    assert_eq!(s.select_no_auth(&[]), None);
    assert!(s.authorize(Method::NoAuth).is_ok());
    assert!(s.authorize(Method::GssApi).is_err());
}
