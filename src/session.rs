//! The per-connection session: a state machine that negotiates the
//! authentication method, checks the connect request against the rules,
//! asks for the upstream connection and replies to the client.
//!
//! The machine does no I/O. Its owner reads and decodes client messages,
//! hands them in as events, and performs the actions that come back.
use vstd::prelude::*;

use crate::error::{spec_cerr, Error};
use crate::model::{
    Address, Command, ConnectError, ConnectReply, ConnectRequest, L4Protocol, Method,
    MethodCandidates, MethodSelection, ProtocolVersion,
};
use crate::codec::{
    addr_encodable, spec_encode_reply, spec_encode_selection, spec_parse_candidates, spec_parse_request,
    Parsed,
};
use crate::rule::ConnectRule;
use crate::stream::ReadWriteStream;

verus! {

#[derive(Debug, Clone, Copy, PartialEq, Eq, Hash, Structural)]
pub struct SessionId(pub u32);

impl SessionId {
    pub fn from(id: u32) -> (r: Self)
        ensures
            r == SessionId(id),
    {
        SessionId(id)
    }
}

/// Chooses the authentication method and authorizes the client.
pub trait AuthService {
    /// The method it accepts among the candidates; `None` when none is acceptable.
    spec fn spec_select(&self, candidates: Seq<Method>) -> Option<Method>;

    /// How authenticating the client for a method goes.
    spec fn spec_authorize(&self, method: Method) -> Result<(), Error>;

    /// The accepted method among the candidates; `None` when none is acceptable.
    fn select(&self, candidates: &[Method]) -> (r: Option<Method>)
        ensures
            r == self.spec_select(candidates@),
    ;

    /// Authenticates the client for the selected method.
    fn authorize(&self, method: Method) -> (r: Result<(), Error>)
        ensures
            r == self.spec_authorize(method),
    ;
}

/// Accepts `NoAuth` only.
#[derive(Debug, Clone, Copy, PartialEq, Eq, Structural)]
pub struct NoAuthService {}

impl NoAuthService {
    pub fn new() -> (r: Self)
        ensures
            r == (NoAuthService {}),
    {
        NoAuthService {}
    }
}

impl AuthService for NoAuthService {
    open spec fn spec_select(&self, candidates: Seq<Method>) -> Option<Method> {
        spec_no_auth_select(candidates)
    }

    open spec fn spec_authorize(&self, method: Method) -> Result<(), Error> {
        if method == Method::NoAuth {
            Ok(())
        } else {
            Err(Error::Io)
        }
    }

    fn select(&self, candidates: &[Method]) -> (r: Option<Method>) {
        self.select_no_auth(candidates)
    }

    fn authorize(&self, method: Method) -> (r: Result<(), Error>) {
        self.authorize_no_auth(method)
    }
}

/// Accepts no method: every client is turned away at negotiation.
#[derive(Debug, Clone, Copy, PartialEq, Eq, Structural)]
pub struct RejectService {}

impl AuthService for RejectService {
    open spec fn spec_select(&self, candidates: Seq<Method>) -> Option<Method> {
        None
    }

    open spec fn spec_authorize(&self, method: Method) -> Result<(), Error> {
        Err(Error::Authentication)
    }

    fn select(&self, candidates: &[Method]) -> (r: Option<Method>) {
        None
    }

    fn authorize(&self, method: Method) -> (r: Result<(), Error>) {
        Err(Error::Authentication)
    }
}

/// What `NoAuthService` selects.
pub open spec fn spec_no_auth_select(candidates: Seq<Method>) -> Option<Method> {
    if candidates.contains(Method::NoAuth) {
        Some(Method::NoAuth)
    } else {
        None
    }
}

impl NoAuthService {
    /// `NoAuth` when the client offers it, otherwise nothing.
    pub fn select_no_auth(&self, candidates: &[Method]) -> (r: Option<Method>)
        ensures
            r == spec_no_auth_select(candidates@),
    {
        let mut i: usize = 0;
        while i < candidates.len()
            invariant
                i <= candidates@.len(),
                forall|j: int| 0 <= j < i ==> candidates@[j] != Method::NoAuth,
            decreases candidates@.len() - i,
        {
            if candidates[i] == Method::NoAuth {
                assert(candidates@[i as int] == Method::NoAuth);
                return Some(Method::NoAuth);
            }
            i = i + 1;
        }
        None
    }

    /// Passes the client through for `NoAuth`; any other method is an error.
    pub fn authorize_no_auth(&self, method: Method) -> (r: Result<(), Error>)
        ensures
            method == Method::NoAuth ==> r == Ok::<(), Error>(()),
            method != Method::NoAuth ==> r == Err::<(), Error>(Error::Io),
    {
        if method == Method::NoAuth {
            Ok(())
        } else {
            Err(Error::Io)
        }
    }
}

/// Where the session stands.
#[derive(Debug, Clone, Copy, PartialEq, Eq, Structural)]
pub enum SessionState {
    /// Waiting for the client's method candidates.
    Negotiating,
    /// Waiting for the client's connect request.
    Requesting,
    /// Waiting for the upstream connection.
    Connecting,
    /// Relaying bytes; the session's own work is done.
    Relaying,
    /// The session has failed and the connection is to be closed.
    Closed,
}

/// What the session's owner reports.
#[derive(Debug)]
pub enum SessionEvent {
    /// The client's method candidates were received.
    Candidates(MethodCandidates),
    /// The client's connect request was received.
    Request(ConnectRequest),
    /// The upstream connection is open.
    Connected,
    /// Opening the upstream connection failed.
    ConnectFailed(Error),
    /// Reading from the client failed, or what it sent could not be decoded.
    Failed(Error),
}

/// What the session's owner is to do, in order.
#[derive(Debug)]
pub enum SessionAction {
    SendSelection(MethodSelection),
    SendReply(ConnectReply),
    Connect(Address),
    Relay,
    Close(Error),
}

/// The selection sent for the authorizer's choice.
pub open spec fn spec_selection(version: ProtocolVersion, selected: Option<Method>) -> MethodSelection {
    MethodSelection {
        version,
        method: match selected {
            Some(m) => m,
            None => Method::NoMethods,
        },
    }
}

/// The error, if any, that a connect request meets before any connection is tried.
pub open spec fn spec_command_error(rule: ConnectRule, req: ConnectRequest) -> Option<Error> {
    if req.command != Command::Connect {
        Some(Error::CommandNotSupported { cmd: req.command })
    } else if !rule.spec_check(req.connect_to@, L4Protocol::Tcp) {
        Some(Error::ConnectionNotAllowed { addr: req.connect_to, protocol: L4Protocol::Tcp })
    } else {
        None
    }
}

/// The reply for a connect result; it reports the proxy's own address.
pub open spec fn spec_reply(version: ProtocolVersion, server_addr: Address, result: Result<(), ConnectError>) -> ConnectReply {
    ConnectReply { version, connect_result: result, server_addr }
}

/// One step of the machine: the next state and the actions, given what the
/// authorizer selected and how authorization went.
pub open spec fn spec_step(
    version: ProtocolVersion,
    server_addr: Address,
    rule: ConnectRule,
    state: SessionState,
    event: SessionEvent,
    selected: Option<Method>,
    authorized: Result<(), Error>,
) -> (SessionState, Seq<SessionAction>) {
    match (state, event) {
        (SessionState::Negotiating, SessionEvent::Candidates(_)) => {
            let sel = spec_selection(version, selected);
            if sel.method == Method::NoMethods {
                (
                    SessionState::Closed,
                    seq![SessionAction::SendSelection(sel), SessionAction::Close(Error::NoAcceptableMethod)],
                )
            } else {
                match authorized {
                    Ok(_) => (SessionState::Requesting, seq![SessionAction::SendSelection(sel)]),
                    Err(e) => (
                        SessionState::Closed,
                        seq![
                            SessionAction::SendSelection(sel),
                            SessionAction::SendReply(spec_reply(version, server_addr, Err(spec_cerr(e)))),
                            SessionAction::Close(e),
                        ],
                    ),
                }
            }
        },
        (SessionState::Requesting, SessionEvent::Request(req)) => match spec_command_error(rule, req) {
            Some(e) => (
                SessionState::Closed,
                seq![
                    SessionAction::SendReply(spec_reply(version, server_addr, Err(spec_cerr(e)))),
                    SessionAction::Close(e),
                ],
            ),
            None => (SessionState::Connecting, seq![SessionAction::Connect(req.connect_to)]),
        },
        (SessionState::Connecting, SessionEvent::Connected) => (
            SessionState::Relaying,
            seq![SessionAction::SendReply(spec_reply(version, server_addr, Ok(()))), SessionAction::Relay],
        ),
        (SessionState::Connecting, SessionEvent::ConnectFailed(e)) | (SessionState::Connecting, SessionEvent::Failed(e)) => (
            SessionState::Closed,
            seq![
                SessionAction::SendReply(spec_reply(version, server_addr, Err(spec_cerr(e)))),
                SessionAction::Close(e),
            ],
        ),
        (SessionState::Negotiating, SessionEvent::Failed(e)) | (SessionState::Requesting, SessionEvent::Failed(e)) => (
            SessionState::Closed,
            seq![SessionAction::Close(e)],
        ),
        _ => (state, Seq::empty()),
    }
}

/// How many connect replies a list of actions sends.
pub open spec fn replies_in(actions: Seq<SessionAction>) -> nat
    decreases actions.len(),
{
    if actions.len() == 0 {
        0
    } else {
        replies_in(actions.drop_last()) + if actions.last() is SendReply {
            1nat
        } else {
            0nat
        }
    }
}

/// Whether a request may go on to connect: only `Connect` is supported, and
/// the rules must allow its address over TCP.
pub fn perform_command(rule: &ConnectRule, req: &ConnectRequest) -> (r: Result<(), Error>)
    requires
        rule.wf(),
    ensures
        match spec_command_error(*rule, *req) {
            Some(e) => r == Err::<(), Error>(e),
            None => r is Ok,
        },
{
    match req.command {
        Command::Connect => {},
        Command::Bind => return Err(Error::command_not_supported(Command::Bind)),
        Command::UdpAssociate => return Err(Error::command_not_supported(Command::UdpAssociate)),
    }
    check_rule(rule, &req.connect_to, L4Protocol::Tcp)
}

/// `ConnectionNotAllowed` unless the rule permits the address over the protocol.
pub fn check_rule(rule: &ConnectRule, addr: &Address, proto: L4Protocol) -> (r: Result<(), Error>)
    requires
        rule.wf(),
    ensures
        rule.spec_check(addr@, proto) ==> r is Ok,
        !rule.spec_check(addr@, proto) ==> r == Err::<(), Error>(
            Error::ConnectionNotAllowed { addr: *addr, protocol: proto },
        ),
{
    if rule.check(addr.duplicate(), proto) {
        Ok(())
    } else {
        Err(Error::connection_not_allowed(addr.duplicate(), proto))
    }
}

/// A session on one accepted client connection.
pub struct Session<A> {
    id: SessionId,
    version: ProtocolVersion,
    authorizer: A,
    /// The proxy's own address, reported in every connect reply.
    server_addr: Address,
    conn_rule: ConnectRule,
    state: SessionState,
    /// Connect replies sent so far.
    replies: Ghost<nat>,
    /// Whether a method has been selected.
    selected: Ghost<bool>,
    /// Whether the connect request failed to arrive or to decode.
    undecoded: Ghost<bool>,
}

/// The reply count agrees with the state. No reply is sent while
/// negotiating; once a method is selected, exactly one is owed by the end,
/// unless the connect request failed to arrive or to decode.
pub open spec fn reply_inv(state: SessionState, replies: nat, selected: bool, undecoded: bool) -> bool {
    let owed = selected && !undecoded;
    match state {
        SessionState::Negotiating => replies == 0 && !selected && !undecoded,
        SessionState::Requesting | SessionState::Connecting => replies == 0 && selected && !undecoded,
        SessionState::Relaying => replies == 1 && selected && !undecoded,
        SessionState::Closed => replies == (if owed {
            1nat
        } else {
            0nat
        }),
    }
}

/// Whether an event, in a state, gets a method selected.
pub open spec fn selects(
    version: ProtocolVersion,
    state: SessionState,
    event: SessionEvent,
    selected: Option<Method>,
) -> bool {
    state == SessionState::Negotiating && event is Candidates && spec_selection(version, selected).method
        != Method::NoMethods
}

/// Whether an event, in a state, reports that the connect request failed to
/// arrive or to decode.
pub open spec fn fails_request(state: SessionState, event: SessionEvent) -> bool {
    state == SessionState::Requesting && event is Failed
}

/// One step keeps the reply count in agreement with the state.
pub proof fn lemma_step_keeps_reply_inv(
    version: ProtocolVersion,
    server_addr: Address,
    rule: ConnectRule,
    state: SessionState,
    replies: nat,
    was_selected: bool,
    undecoded: bool,
    event: SessionEvent,
    selected: Option<Method>,
    authorized: Result<(), Error>,
)
    requires
        reply_inv(state, replies, was_selected, undecoded),
    ensures
        ({
            let (next, actions) = spec_step(version, server_addr, rule, state, event, selected, authorized);
            reply_inv(
                next,
                replies + replies_in(actions),
                was_selected || selects(version, state, event, selected),
                undecoded || fails_request(state, event),
            )
        }),
{
    let (next, actions) = spec_step(version, server_addr, rule, state, event, selected, authorized);
    reveal_with_fuel(replies_in, 4);
    assert(actions.len() <= 3);
    if actions.len() == 3 {
        assert(actions.drop_last().drop_last().drop_last().len() == 0);
    }
    if actions.len() == 2 {
        assert(actions.drop_last().drop_last().len() == 0);
    }
}

impl<A: AuthService> Session<A> {
    pub closed spec fn spec_id(&self) -> SessionId {
        self.id
    }

    pub closed spec fn spec_version(&self) -> ProtocolVersion {
        self.version
    }

    pub closed spec fn spec_server_addr(&self) -> Address {
        self.server_addr
    }

    pub closed spec fn spec_rule(&self) -> ConnectRule {
        self.conn_rule
    }

    pub closed spec fn spec_authorizer(&self) -> A {
        self.authorizer
    }

    /// What the authorizer answers for an event: its selection among the
    /// candidates, and how authorizing the selected method goes.
    pub open spec fn spec_answers(&self, event: SessionEvent) -> (Option<Method>, Result<(), Error>) {
        match event {
            SessionEvent::Candidates(c) => {
                let sel = self.spec_authorizer().spec_select(c.method@);
                (sel, self.spec_authorizer().spec_authorize(spec_selection(self.spec_version(), sel).method))
            },
            _ => (None, Ok(())),
        }
    }

    pub closed spec fn state(&self) -> SessionState {
        self.state
    }

    pub closed spec fn replies(&self) -> nat {
        self.replies@
    }

    pub closed spec fn selected(&self) -> bool {
        self.selected@
    }

    pub closed spec fn undecoded(&self) -> bool {
        self.undecoded@
    }

    pub closed spec fn wf(&self) -> bool {
        &&& self.conn_rule.wf()
        &&& addr_encodable(self.server_addr@)
        &&& reply_inv(self.state(), self.replies(), self.selected(), self.undecoded())
    }

    pub fn new(
        id: SessionId,
        version: ProtocolVersion,
        authorizer: A,
        server_addr: Address,
        conn_rule: ConnectRule,
    ) -> (r: Self)
        requires
            conn_rule.wf(),
            addr_encodable(server_addr@),
        ensures
            r.wf(),
            r.state() == SessionState::Negotiating,
            r.replies() == 0,
            r.spec_id() == id,
            r.spec_version() == version,
            r.spec_server_addr() == server_addr,
            r.spec_rule() == conn_rule,
            r.spec_authorizer() == authorizer,
    {
        Session {
            id,
            version,
            authorizer,
            server_addr,
            conn_rule,
            state: SessionState::Negotiating,
            replies: Ghost(0),
            selected: Ghost(false),
            undecoded: Ghost(false),
        }
    }

    pub fn id(&self) -> (r: SessionId)
        ensures
            r == self.spec_id(),
    {
        self.id
    }

    pub fn current_state(&self) -> (r: SessionState)
        ensures
            r == self.state(),
    {
        self.state
    }

    /// The reply for a connect result.
    pub fn connect_reply(&self, connect_result: Result<(), ConnectError>) -> (r: ConnectReply)
        ensures
            r == spec_reply(self.spec_version(), self.spec_server_addr(), connect_result),
    {
        ConnectReply { version: self.version, connect_result, server_addr: self.server_addr.duplicate() }
    }

    /// The selection to send for what the authorizer chose, and the method
    /// to go on with; `NoAcceptableMethod` when nothing was chosen.
    pub fn negotiate(&self, selected: Option<Method>) -> (r: (MethodSelection, Result<Method, Error>))
        ensures
            r.0 == spec_selection(self.spec_version(), selected),
            r.0.method == Method::NoMethods ==> r.1 == Err::<Method, Error>(Error::NoAcceptableMethod),
            r.0.method != Method::NoMethods ==> r.1 == Ok::<Method, Error>(r.0.method),
    {
        let method = match selected {
            Some(m) => m,
            None => Method::NoMethods,
        };
        let sel = MethodSelection { version: self.version, method };
        if method == Method::NoMethods {
            (sel, Err(Error::NoAcceptableMethod))
        } else {
            (sel, Ok(method))
        }
    }

    /// Advances the session by one event and says what to do. The
    /// authorizer is consulted on the candidates; the step is the one
    /// `spec_step` gives for its answers.
    pub fn step(&mut self, event: SessionEvent) -> (actions: Vec<SessionAction>)
        requires
            old(self).wf(),
        ensures
            final(self).wf(),
            final(self).spec_id() == old(self).spec_id(),
            final(self).spec_version() == old(self).spec_version(),
            final(self).spec_server_addr() == old(self).spec_server_addr(),
            final(self).spec_rule() == old(self).spec_rule(),
            final(self).spec_authorizer() == old(self).spec_authorizer(),
            final(self).replies() == old(self).replies() + replies_in(actions@),
            final(self).replies() <= 1,
            final(self).selected() == (old(self).selected() || selects(
                old(self).spec_version(),
                old(self).state(),
                event,
                old(self).spec_answers(event).0,
            )),
            final(self).undecoded() == (old(self).undecoded() || fails_request(old(self).state(), event)),
            spec_step(
                old(self).spec_version(),
                old(self).spec_server_addr(),
                old(self).spec_rule(),
                old(self).state(),
                event,
                old(self).spec_answers(event).0,
                old(self).spec_answers(event).1,
            ) == (final(self).state(), actions@),
    {
        let ghost old_state = self.state;
        let ghost pre = *self;
        let ghost ev = event;
        let ghost mut selected: Option<Method> = None;
        let ghost mut authorized: Result<(), Error> = Ok(());
        let mut actions: Vec<SessionAction> = Vec::new();
        let next = match (self.state, event) {
            (SessionState::Negotiating, SessionEvent::Candidates(c)) => {
                let chosen = self.authorizer.select(c.method.as_slice());
                proof {
                    selected = chosen;
                }
                let (sel, res) = self.negotiate(chosen);
                actions.push(SessionAction::SendSelection(sel));
                match res {
                    Err(e) => {
                        actions.push(SessionAction::Close(e));
                        SessionState::Closed
                    },
                    Ok(m) => match self.authorizer.authorize(m) {
                        Ok(u) => {
                            assert(self.authorizer.spec_authorize(m) == Ok::<(), Error>(()));
                            SessionState::Requesting
                        },
                        Err(e) => {
                            proof {
                                authorized = Err(e);
                            }
                            actions.push(SessionAction::SendReply(self.connect_reply(Err(e.cerr()))));
                            actions.push(SessionAction::Close(e));
                            SessionState::Closed
                        },
                    },
                }
            },
            (SessionState::Requesting, SessionEvent::Request(req)) => {
                match perform_command(&self.conn_rule, &req) {
                    Err(e) => {
                        actions.push(SessionAction::SendReply(self.connect_reply(Err(e.cerr()))));
                        actions.push(SessionAction::Close(e));
                        SessionState::Closed
                    },
                    Ok(()) => {
                        actions.push(SessionAction::Connect(req.connect_to));
                        SessionState::Connecting
                    },
                }
            },
            (SessionState::Connecting, SessionEvent::Connected) => {
                actions.push(SessionAction::SendReply(self.connect_reply(Ok(()))));
                actions.push(SessionAction::Relay);
                SessionState::Relaying
            },
            (SessionState::Connecting, SessionEvent::ConnectFailed(e)) => {
                actions.push(SessionAction::SendReply(self.connect_reply(Err(e.cerr()))));
                actions.push(SessionAction::Close(e));
                SessionState::Closed
            },
            (SessionState::Connecting, SessionEvent::Failed(e)) => {
                actions.push(SessionAction::SendReply(self.connect_reply(Err(e.cerr()))));
                actions.push(SessionAction::Close(e));
                SessionState::Closed
            },
            (SessionState::Negotiating, SessionEvent::Failed(e)) => {
                actions.push(SessionAction::Close(e));
                SessionState::Closed
            },
            (SessionState::Requesting, SessionEvent::Failed(e)) => {
                actions.push(SessionAction::Close(e));
                SessionState::Closed
            },
            (s, _) => s,
        };
        proof {
            let (n2, a2) = spec_step(self.version, self.server_addr, self.conn_rule, old_state, ev, selected, authorized);
            assert(a2 =~= actions@);
            assert(n2 == next);
            lemma_step_keeps_reply_inv(
                self.version,
                self.server_addr,
                self.conn_rule,
                old_state,
                self.replies@,
                self.selected@,
                self.undecoded@,
                ev,
                selected,
                authorized,
            );
        }
        self.state = next;
        let ghost new_replies = self.replies@ + replies_in(actions@);
        let ghost new_selected = self.selected@ || selects(self.version, old_state, ev, selected);
        let ghost new_undecoded = self.undecoded@ || fails_request(old_state, ev);
        self.replies = Ghost(new_replies);
        self.selected = Ghost(new_selected);
        self.undecoded = Ghost(new_undecoded);
        assert(spec_step(pre.spec_version(), pre.spec_server_addr(), pre.spec_rule(), pre.state(), ev, selected, authorized)
            == (self.state(), actions@));
        assert(spec_step(pre.spec_version(), pre.spec_server_addr(), pre.spec_rule(), pre.state(), ev,
            pre.spec_answers(ev).0, pre.spec_answers(ev).1) == (self.state(), actions@));
        actions
    }
}

/// Where driving a session over a stream has left it.
#[derive(Debug)]
pub enum DriveOutcome {
    /// More bytes from the client are needed.
    NeedInput,
    /// The method is selected and authorized; drive again for the request.
    Negotiated,
    /// Open the upstream connection to this address, then report back.
    Connect(Address),
    /// The success reply is written; relay bytes from now on.
    Relay,
    /// The session failed; close the connection.
    Closed(Error),
    /// The upstream connection is still to be reported.
    Pending,
    /// The session had already ended.
    Ended,
}

/// The bytes that the messages among the actions put on the wire, in order.
pub open spec fn actions_output(acts: Seq<SessionAction>) -> Seq<u8>
    decreases acts.len(),
{
    if acts.len() == 0 {
        Seq::empty()
    } else {
        actions_output(acts.drop_last()) + match acts.last() {
            SessionAction::SendSelection(sel) => spec_encode_selection(sel),
            SessionAction::SendReply(rep) => spec_encode_reply(rep@),
            _ => Seq::empty(),
        }
    }
}

/// What the owner is told to do: the last action that is not a message.
pub open spec fn actions_outcome(acts: Seq<SessionAction>) -> Option<DriveOutcome>
    decreases acts.len(),
{
    if acts.len() == 0 {
        None
    } else {
        match acts.last() {
            SessionAction::Connect(a) => Some(DriveOutcome::Connect(a)),
            SessionAction::Relay => Some(DriveOutcome::Relay),
            SessionAction::Close(e) => Some(DriveOutcome::Closed(e)),
            _ => actions_outcome(acts.drop_last()),
        }
    }
}

/// Every reply among the actions can be written.
pub open spec fn replies_encodable(acts: Seq<SessionAction>) -> bool {
    forall|i: int| 0 <= i < acts.len() ==> (#[trigger] acts[i] matches SessionAction::SendReply(r) ==> addr_encodable(r.server_addr@))
}

/// An outcome agrees with the state it leaves the session in.
pub open spec fn outcome_agrees(o: DriveOutcome, s: SessionState) -> bool {
    match o {
        DriveOutcome::NeedInput => s == SessionState::Negotiating || s == SessionState::Requesting,
        DriveOutcome::Negotiated => s == SessionState::Requesting,
        DriveOutcome::Connect(_) | DriveOutcome::Pending => s == SessionState::Connecting,
        DriveOutcome::Relay => s == SessionState::Relaying,
        DriveOutcome::Closed(_) => s == SessionState::Closed,
        DriveOutcome::Ended => true,
    }
}

/// The actions of a step: replies carry the proxy's address, and what the
/// owner is told agrees with the next state.
proof fn lemma_step_shape(
    version: ProtocolVersion,
    server_addr: Address,
    rule: ConnectRule,
    state: SessionState,
    event: SessionEvent,
    selected: Option<Method>,
    authorized: Result<(), Error>,
)
    requires
        addr_encodable(server_addr@),
    ensures
        ({
            let (next, acts) = spec_step(version, server_addr, rule, state, event, selected, authorized);
            &&& replies_encodable(acts)
            &&& actions_outcome(acts) matches Some(o) ==> outcome_agrees(o, next)
            &&& actions_outcome(acts) is None ==> (next == state || (state == SessionState::Negotiating
                && next == SessionState::Requesting))
        }),
{
    let (next, acts) = spec_step(version, server_addr, rule, state, event, selected, authorized);
    reveal_with_fuel(actions_outcome, 4);
    assert(acts.len() <= 3);
    if acts.len() == 3 {
        assert(acts.drop_last().drop_last().drop_last().len() == 0);
    }
    if acts.len() == 2 {
        assert(acts.drop_last().drop_last().len() == 0);
    }
}

impl<A: AuthService> Session<A> {
    /// Writes the messages among the actions to the stream, in order, and
    /// says what the owner is to do about the rest.
    fn perform(&self, strm: &mut ReadWriteStream, actions: Vec<SessionAction>) -> (r: Option<DriveOutcome>)
        requires
            old(strm).inner().wf(),
            replies_encodable(actions@),
        ensures
            final(strm).inner().wf(),
            final(strm).inner().input() == old(strm).inner().input(),
            final(strm).inner().position() == old(strm).inner().position(),
            final(strm).inner().output() == old(strm).inner().output() + actions_output(actions@),
            r == actions_outcome(actions@),
    {
        let ghost all = actions@;
        let ghost out0 = strm.inner().output();
        let mut actions = actions;
        let n = actions.len();
        let mut outcome: Option<DriveOutcome> = None;
        let mut k: usize = 0;
        assert(all.subrange(0, 0) =~= Seq::<SessionAction>::empty());
        assert(all.subrange(0, all.len() as int) =~= all);
        while actions.len() > 0
            invariant
                strm.inner().wf(),
                strm.inner().input() == old(strm).inner().input(),
                strm.inner().position() == old(strm).inner().position(),
                replies_encodable(all),
                all.len() == n,
                k <= all.len(),
                actions@ == all.subrange(k as int, all.len() as int),
                strm.inner().output() == out0 + actions_output(all.subrange(0, k as int)),
                outcome == actions_outcome(all.subrange(0, k as int)),
            decreases actions@.len(),
        {
            let ghost done = all.subrange(0, k + 1);
            assert(done.drop_last() =~= all.subrange(0, k as int));
            assert(done.last() == all[k as int]);
            match actions.remove(0) {
                SessionAction::SendSelection(sel) => {
                    let _ = strm.send_method_selection(sel);
                },
                SessionAction::SendReply(reply) => {
                    assert(all[k as int] matches SessionAction::SendReply(r) ==> addr_encodable(r.server_addr@));
                    match strm.send_connect_reply(reply) {
                        Ok(()) => {},
                        Err(e) => {
                            return Some(DriveOutcome::Closed(e));
                        },
                    }
                },
                SessionAction::Connect(addr) => {
                    outcome = Some(DriveOutcome::Connect(addr));
                },
                SessionAction::Relay => {
                    outcome = Some(DriveOutcome::Relay);
                },
                SessionAction::Close(e) => {
                    outcome = Some(DriveOutcome::Closed(e));
                },
            }
            assert(strm.inner().output() =~= out0 + actions_output(done));
            k = k + 1;
            assert(actions@ =~= all.subrange(k as int, all.len() as int));
        }
        outcome
    }

    /// Runs the session on the next client message that the stream holds:
    /// the method candidates while negotiating, the connect request after
    /// that. It writes the selection, or any reply, to the stream.
    pub fn drive(&mut self, strm: &mut ReadWriteStream) -> (r: DriveOutcome)
        requires
            old(self).wf(),
            old(strm).inner().wf(),
        ensures
            final(self).wf(),
            final(strm).inner().wf(),
            final(self).spec_id() == old(self).spec_id(),
            final(self).spec_rule() == old(self).spec_rule(),
            final(self).spec_version() == old(self).spec_version(),
            final(self).spec_server_addr() == old(self).spec_server_addr(),
            final(self).spec_authorizer() == old(self).spec_authorizer(),
            final(self).replies() <= 1,
            final(strm).inner().input() == old(strm).inner().input(),
            outcome_agrees(r, final(self).state()),
            old(self).state() == SessionState::Negotiating ==> match spec_parse_candidates(old(strm).inner().unread()) {
                Parsed::Short => {
                    &&& r is NeedInput
                    &&& final(self).state() == old(self).state()
                    &&& final(strm).inner().position() == old(strm).inner().position()
                    &&& final(strm).inner().output() == old(strm).inner().output()
                },
                Parsed::Malformed => {
                    &&& r matches DriveOutcome::Closed(Error::MessageFormat { .. })
                    &&& final(strm).inner().output() == old(strm).inner().output()
                },
                Parsed::Done(cv, n) => {
                    let sel = spec_selection(old(self).spec_version(), old(self).spec_authorizer().spec_select(cv.1));
                    &&& final(strm).inner().position() == old(strm).inner().position() + n
                    &&& sel.method == Method::NoMethods ==> {
                        &&& r == DriveOutcome::Closed(Error::NoAcceptableMethod)
                        &&& final(strm).inner().output() == old(strm).inner().output() + spec_encode_selection(sel)
                    }
                    &&& sel.method != Method::NoMethods ==> match old(self).spec_authorizer().spec_authorize(sel.method) {
                        Ok(_) => {
                            &&& r is Negotiated
                            &&& final(strm).inner().output() == old(strm).inner().output() + spec_encode_selection(sel)
                        },
                        Err(e) => {
                            &&& r == DriveOutcome::Closed(e)
                            &&& final(strm).inner().output() == old(strm).inner().output() + spec_encode_selection(sel)
                                + spec_encode_reply((old(self).spec_version(), Err(spec_cerr(e)), old(self).spec_server_addr()@))
                        },
                    }
                },
            },
            old(self).state() == SessionState::Requesting ==> match spec_parse_request(old(strm).inner().unread()) {
                Parsed::Short => {
                    &&& r is NeedInput
                    &&& final(self).state() == old(self).state()
                    &&& final(strm).inner().position() == old(strm).inner().position()
                    &&& final(strm).inner().output() == old(strm).inner().output()
                },
                Parsed::Malformed => {
                    &&& r matches DriveOutcome::Closed(Error::MessageFormat { .. })
                    &&& final(strm).inner().output() == old(strm).inner().output()
                },
                Parsed::Done(rv, n) => {
                    &&& final(strm).inner().position() == old(strm).inner().position() + n
                    &&& rv.1 != Command::Connect ==> {
                        &&& r == DriveOutcome::Closed(Error::CommandNotSupported { cmd: rv.1 })
                        &&& final(strm).inner().output() == old(strm).inner().output() + spec_encode_reply(
                            (old(self).spec_version(), Err(ConnectError::CommandNotSupported), old(self).spec_server_addr()@),
                        )
                    }
                    &&& rv.1 == Command::Connect && !old(self).spec_rule().spec_check(rv.2, L4Protocol::Tcp) ==> {
                        &&& match r {
                            DriveOutcome::Closed(Error::ConnectionNotAllowed { addr, protocol }) => addr@ == rv.2
                                && protocol == L4Protocol::Tcp,
                            _ => false,
                        }
                        &&& final(strm).inner().output() == old(strm).inner().output() + spec_encode_reply(
                            (old(self).spec_version(), Err(ConnectError::ConnectionNotAllowed), old(self).spec_server_addr()@),
                        )
                    }
                    &&& rv.1 == Command::Connect && old(self).spec_rule().spec_check(rv.2, L4Protocol::Tcp) ==> {
                        &&& match r {
                            DriveOutcome::Connect(a) => a@ == rv.2,
                            _ => false,
                        }
                        &&& final(strm).inner().output() == old(strm).inner().output()
                    }
                },
            },
            old(self).state() == SessionState::Connecting ==> r is Pending && final(strm).inner() == old(strm).inner() && final(self).state() == old(self).state(),
            old(self).state() == SessionState::Relaying ==> r is Relay && final(strm).inner() == old(strm).inner() && final(self).state() == old(self).state(),
            old(self).state() == SessionState::Closed ==> r is Ended && final(strm).inner() == old(strm).inner() && final(self).state() == old(self).state(),
    {
        let event = match self.state {
            SessionState::Negotiating => match strm.recv_method_candidates() {
                Ok(c) => SessionEvent::Candidates(c),
                Err(Error::Io) => return DriveOutcome::NeedInput,
                Err(e) => SessionEvent::Failed(e),
            },
            SessionState::Requesting => match strm.recv_connect_request() {
                Ok(req) => SessionEvent::Request(req),
                Err(Error::Io) => return DriveOutcome::NeedInput,
                Err(e) => SessionEvent::Failed(e),
            },
            SessionState::Connecting => return DriveOutcome::Pending,
            SessionState::Relaying => return DriveOutcome::Relay,
            SessionState::Closed => return DriveOutcome::Ended,
        };
        let ghost pre = *self;
        let ghost ev = event;
        let actions = self.step(event);
        proof {
            let (sel, auth) = pre.spec_answers(ev);
            lemma_step_shape(pre.spec_version(), pre.spec_server_addr(), pre.spec_rule(), pre.state(), ev, sel, auth);
            reveal_with_fuel(actions_output, 4);
            reveal_with_fuel(actions_outcome, 4);
            if actions@.len() == 3 {
                assert(actions@.drop_last().drop_last().drop_last() =~= Seq::<SessionAction>::empty());
            }
            if actions@.len() == 2 {
                assert(actions@.drop_last().drop_last() =~= Seq::<SessionAction>::empty());
            }
            if actions@.len() == 1 {
                assert(actions@.drop_last() =~= Seq::<SessionAction>::empty());
            }
        }
        match self.perform(strm, actions) {
            Some(o) => o,
            None => DriveOutcome::Negotiated,
        }
    }

    /// Reports how opening the upstream connection went, and writes the reply.
    pub fn connected(&mut self, strm: &mut ReadWriteStream, outcome: Result<(), Error>) -> (r: DriveOutcome)
        requires
            old(self).wf(),
            old(strm).inner().wf(),
        ensures
            final(self).wf(),
            final(strm).inner().wf(),
            final(self).spec_id() == old(self).spec_id(),
            final(self).replies() <= 1,
            final(strm).inner().input() == old(strm).inner().input(),
            final(strm).inner().position() == old(strm).inner().position(),
            outcome_agrees(r, final(self).state()),
            old(self).state() == SessionState::Connecting && outcome is Ok ==> {
                &&& r is Relay
                &&& final(strm).inner().output() == old(strm).inner().output() + spec_encode_reply(
                    (old(self).spec_version(), Ok(()), old(self).spec_server_addr()@),
                )
            },
            old(self).state() == SessionState::Connecting && outcome is Err ==> {
                &&& r == DriveOutcome::Closed(outcome->Err_0)
                &&& final(strm).inner().output() == old(strm).inner().output() + spec_encode_reply(
                    (
                        old(self).spec_version(),
                        Err(spec_cerr(outcome->Err_0)),
                        old(self).spec_server_addr()@,
                    ),
                )
            },
            old(self).state() != SessionState::Connecting ==> {
                &&& r is Ended
                &&& final(self).state() == old(self).state()
                &&& final(strm).inner().output() == old(strm).inner().output()
            },
    {
        let ghost pre = *self;
        let event = match outcome {
            Ok(()) => SessionEvent::Connected,
            Err(e) => SessionEvent::ConnectFailed(e),
        };
        let ghost ev = event;
        let actions = self.step(event);
        proof {
            let (sel, auth) = pre.spec_answers(ev);
            lemma_step_shape(pre.spec_version(), pre.spec_server_addr(), pre.spec_rule(), pre.state(), ev, sel, auth);
            reveal_with_fuel(actions_output, 3);
            reveal_with_fuel(actions_outcome, 3);
            if actions@.len() == 2 {
                assert(actions@.drop_last().drop_last() =~= Seq::<SessionAction>::empty());
            }
        }
        match self.perform(strm, actions) {
            Some(o) => o,
            None => DriveOutcome::Ended,
        }
    }
}

/// What a run of the machine comes to, from the first event to the last:
/// its state, the replies sent, whether a method was selected, and whether
/// the connect request failed to arrive or to decode.
pub open spec fn run_replies(
    version: ProtocolVersion,
    server_addr: Address,
    rule: ConnectRule,
    steps: Seq<(SessionEvent, Option<Method>, Result<(), Error>)>,
) -> (SessionState, nat, bool, bool)
    decreases steps.len(),
{
    if steps.len() == 0 {
        (SessionState::Negotiating, 0, false, false)
    } else {
        let (state, replies, selected, undecoded) = run_replies(version, server_addr, rule, steps.drop_last());
        let (ev, sel, auth) = steps.last();
        let (next, actions) = spec_step(version, server_addr, rule, state, ev, sel, auth);
        (
            next,
            replies + replies_in(actions),
            selected || selects(version, state, ev, sel),
            undecoded || fails_request(state, ev),
        )
    }
}

/// At most one reply: whatever the events and the authorizer's answers, a
/// session sends at most one connect reply. Once it has finished (closed or
/// relaying) it has sent exactly one if and only if a method was selected
/// and the connect request did not fail to arrive or to decode.
pub proof fn lemma_at_most_one_reply(
    version: ProtocolVersion,
    server_addr: Address,
    rule: ConnectRule,
    steps: Seq<(SessionEvent, Option<Method>, Result<(), Error>)>,
)
    ensures
        ({
            let (state, replies, selected, undecoded) = run_replies(version, server_addr, rule, steps);
            &&& replies <= 1
            &&& (state == SessionState::Closed || state == SessionState::Relaying) ==> (replies == 1
                <==> (selected && !undecoded))
        }),
{
    lemma_run_keeps_reply_inv(version, server_addr, rule, steps);
}

proof fn lemma_run_keeps_reply_inv(
    version: ProtocolVersion,
    server_addr: Address,
    rule: ConnectRule,
    steps: Seq<(SessionEvent, Option<Method>, Result<(), Error>)>,
)
    ensures
        ({
            let (state, replies, selected, undecoded) = run_replies(version, server_addr, rule, steps);
            reply_inv(state, replies, selected, undecoded)
        }),
    decreases steps.len(),
{
    if steps.len() > 0 {
        lemma_run_keeps_reply_inv(version, server_addr, rule, steps.drop_last());
        let (state, replies, selected, undecoded) = run_replies(version, server_addr, rule, steps.drop_last());
        let (ev, sel, auth) = steps.last();
        lemma_step_keeps_reply_inv(version, server_addr, rule, state, replies, selected, undecoded, ev, sel, auth);
    }
}

} // verus!
