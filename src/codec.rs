//! SOCKS5 wire format: encoding messages to bytes and decoding them back.
//! All integers are big-endian.
use vstd::prelude::*;
use vstd::utf8::*;

use crate::error::Error;
use crate::raw_message::{ResponseCode, SockCommand};
use crate::model::{
    lemma_method_code_round_trip, AddrView, Address, Command, ConnectError, ConnectReply, ConnectRequest,
    IpAddr, Method, UdpDatagram,
    MethodCandidates, MethodSelection, ProtocolVersion,
};

verus! {

broadcast use {encode_utf8_valid_utf8, encode_utf8_decode_utf8};

/// The value of the reserved byte.
pub const RESERVED: u8 = 0x00;

/// Longest domain name that the one-byte length field can carry.
pub const MAX_DOMAIN_LEN: usize = 255;

/// What `String::from_utf8_lossy` makes of bytes that are not valid UTF-8.
pub uninterp spec fn utf8_lossy(b: Seq<u8>) -> Seq<char>;

/// The characters of a domain name received as bytes.
pub open spec fn domain_chars(b: Seq<u8>) -> Seq<char> {
    if valid_utf8(b) {
        decode_utf8(b)
    } else {
        utf8_lossy(b)
    }
}

/// Relies on String::from_utf8_lossy: valid UTF-8 is decoded as it is;
/// otherwise invalid sequences are replaced by U+FFFD.
#[verifier::external_body]
fn string_from_utf8_lossy(b: &[u8]) -> (r: String)
    ensures
        valid_utf8(b@) ==> r@ == decode_utf8(b@),
        !valid_utf8(b@) ==> r@ == utf8_lossy(b@),
{
    String::from_utf8_lossy(b).into_owned()
}

impl View for MethodCandidates {
    type V = (ProtocolVersion, Seq<Method>);

    open spec fn view(&self) -> (ProtocolVersion, Seq<Method>) {
        (self.version, self.method@)
    }
}

impl View for ConnectRequest {
    type V = (ProtocolVersion, Command, AddrView);

    open spec fn view(&self) -> (ProtocolVersion, Command, AddrView) {
        (self.version, self.command, self.connect_to@)
    }
}

impl View for ConnectReply {
    type V = (ProtocolVersion, Result<(), ConnectError>, AddrView);

    open spec fn view(&self) -> (ProtocolVersion, Result<(), ConnectError>, AddrView) {
        (self.version, self.connect_result, self.server_addr@)
    }
}

/// The outcome of decoding a message from the front of a byte sequence.
pub enum Parsed<T> {
    /// The bytes end before the message does.
    Short,
    /// The bytes break the format.
    Malformed,
    /// The message, and how many bytes it took.
    Done(T, nat),
}

/// The outcome of an executable decoder agrees with the specified one:
/// `Io` for bytes that end too early, `MessageFormat` for malformed ones.
pub open spec fn decoded_as<T, V>(r: Result<(T, usize), Error>, p: Parsed<V>, view: spec_fn(T) -> V) -> bool {
    match p {
        Parsed::Short => r == Err::<(T, usize), Error>(Error::Io),
        Parsed::Malformed => r matches Err(Error::MessageFormat { .. }),
        Parsed::Done(v, n) => (r matches Ok((m, k)) && view(m) == v && k == n),
    }
}

/// The big-endian number in `s`.
pub open spec fn be_nat(s: Seq<u8>) -> nat
    decreases s.len(),
{
    if s.len() == 0 {
        0
    } else {
        (be_nat(s.drop_last()) * 256 + s.last()) as nat
    }
}

/// The `n` bytes of `v`, most significant first.
pub open spec fn be_bytes(v: nat, n: nat) -> Seq<u8>
    decreases n,
{
    if n == 0 {
        Seq::empty()
    } else {
        be_bytes(v / 256, (n - 1) as nat).push((v % 256) as u8)
    }
}

pub open spec fn pow256(n: nat) -> nat
    decreases n,
{
    if n == 0 {
        1
    } else {
        (256 * pow256((n - 1) as nat)) as nat
    }
}

/// Reading back the bytes of a number gives the number.
pub proof fn lemma_be_round_trip(v: nat, n: nat)
    requires
        v < pow256(n),
    ensures
        be_bytes(v, n).len() == n,
        be_nat(be_bytes(v, n)) == v,
    decreases n,
{
    if n > 0 {
        assert(v / 256 < pow256((n - 1) as nat)) by (nonlinear_arith)
            requires
                v < 256 * pow256((n - 1) as nat),
        ;
        lemma_be_round_trip(v / 256, (n - 1) as nat);
        let s = be_bytes(v, n);
        assert(s.drop_last() == be_bytes(v / 256, (n - 1) as nat));
    } else {
        assert(v == 0);
    }
}

proof fn lemma_be_nat_bound(s: Seq<u8>)
    ensures
        be_nat(s) < pow256(s.len()),
    decreases s.len(),
{
    if s.len() > 0 {
        lemma_be_nat_bound(s.drop_last());
        let a = be_nat(s.drop_last());
        let p = pow256((s.len() - 1) as nat);
        assert(a * 256 + s.last() < 256 * p) by (nonlinear_arith)
            requires
                a < p,
                s.last() < 256,
        ;
    }
}

proof fn lemma_pow256_values()
    ensures
        pow256(2) == 0x10000,
        pow256(4) == 0x1_0000_0000,
        pow256(16) == 0x1_0000_0000_0000_0000_0000_0000_0000_0000,
{
    reveal_with_fuel(pow256, 17);
}

/// Appends the `n` low bytes of `v`, most significant first.
fn push_be(out: &mut Vec<u8>, v: u128, n: usize)
    requires
        n <= 16,
    ensures
        final(out)@ == old(out)@ + be_bytes(v as nat, n as nat),
    decreases n,
{
    if n > 0 {
        push_be(out, v / 256, n - 1);
        out.push((v % 256) as u8);
    } else {
        assert(old(out)@ + be_bytes(v as nat, 0) =~= old(out)@);
    }
}

/// The big-endian number in `buf[start .. start + n]`.
fn read_be(buf: &[u8], start: usize, n: usize) -> (r: u128)
    requires
        n <= 16,
        start + n <= buf@.len(),
    ensures
        r as nat == be_nat(buf@.subrange(start as int, start + n)),
{
    let mut acc: u128 = 0;
    let mut i: usize = start;
    proof {
        lemma_pow256_values();
    }
    let len = buf.len();
    let end = start + n;
    assert(buf@.subrange(start as int, start as int) =~= Seq::<u8>::empty());
    while i < end
        invariant
            end == start + n,
            start <= i <= start + n,
            start + n <= buf@.len(),
            n <= 16,
            pow256(16) == 0x1_0000_0000_0000_0000_0000_0000_0000_0000,
            acc as nat == be_nat(buf@.subrange(start as int, i as int)),
        decreases start + n - i,
    {
        let ghost s = buf@.subrange(start as int, i + 1);
        assert(s.drop_last() =~= buf@.subrange(start as int, i as int));
        proof {
            lemma_be_nat_bound(s);
            lemma_pow256_mono(s.len(), 16);
        }
        acc = acc * 256 + buf[i] as u128;
        i = i + 1;
    }
    acc
}

proof fn lemma_pow256_mono(a: nat, b: nat)
    requires
        a <= b,
    ensures
        pow256(a) <= pow256(b),
    decreases b,
{
    if a < b {
        lemma_pow256_mono(a, (b - 1) as nat);
    }
}

/// A copy of `buf[start .. end]`.
fn copy_range(buf: &[u8], start: usize, end: usize) -> (r: Vec<u8>)
    requires
        start <= end <= buf@.len(),
    ensures
        r@ == buf@.subrange(start as int, end as int),
{
    let mut v: Vec<u8> = Vec::new();
    let mut i: usize = start;
    while i < end
        invariant
            start <= i <= end,
            end <= buf@.len(),
            v@ == buf@.subrange(start as int, i as int),
        decreases end - i,
    {
        v.push(buf[i]);
        i = i + 1;
    }
    v
}

// ---------------------------------------------------------------------------
// Specification of the wire format
// ---------------------------------------------------------------------------

/// The bytes of an address: `ATYP | ADDR | PORT`.
pub open spec fn spec_encode_addr(a: AddrView) -> Seq<u8> {
    match a {
        AddrView::Ip(IpAddr::V4(x), p) => seq![1u8] + be_bytes(x as nat, 4) + be_bytes(p as nat, 2),
        AddrView::Ip(IpAddr::V6(x), p) => seq![4u8] + be_bytes(x as nat, 16) + be_bytes(p as nat, 2),
        AddrView::Domain(d, p) => seq![3u8, encode_utf8(d).len() as u8] + encode_utf8(d) + be_bytes(
            p as nat,
            2,
        ),
    }
}

/// An address fits the format: a domain name of at most 255 bytes.
pub open spec fn addr_encodable(a: AddrView) -> bool {
    a matches AddrView::Domain(d, _) ==> encode_utf8(d).len() <= MAX_DOMAIN_LEN
}

/// Decodes `ATYP | ADDR | PORT` from the front of `s`.
pub open spec fn spec_parse_addr(s: Seq<u8>) -> Parsed<AddrView> {
    if s.len() < 1 {
        Parsed::Short
    } else if s[0] == 1 {
        if s.len() < 7 {
            Parsed::Short
        } else {
            Parsed::Done(
                AddrView::Ip(IpAddr::V4(be_nat(s.subrange(1, 5)) as u32), be_nat(s.subrange(5, 7)) as u16),
                7,
            )
        }
    } else if s[0] == 4 {
        if s.len() < 19 {
            Parsed::Short
        } else {
            Parsed::Done(
                AddrView::Ip(IpAddr::V6(be_nat(s.subrange(1, 17)) as u128), be_nat(s.subrange(17, 19)) as u16),
                19,
            )
        }
    } else if s[0] == 3 {
        if s.len() < 2 {
            Parsed::Short
        } else if s.len() < 4 + s[1] {
            Parsed::Short
        } else {
            Parsed::Done(
                AddrView::Domain(
                    domain_chars(s.subrange(2, 2 + s[1])),
                    be_nat(s.subrange(2 + s[1], 4 + s[1])) as u16,
                ),
                (4 + s[1]) as nat,
            )
        }
    } else {
        Parsed::Malformed
    }
}

/// `VER | NMETHODS | METHODS`
pub open spec fn spec_encode_candidates(m: (ProtocolVersion, Seq<Method>)) -> Seq<u8> {
    seq![m.0.0, m.1.len() as u8] + m.1.map_values(|x: Method| x.spec_code())
}

pub open spec fn spec_parse_candidates(s: Seq<u8>) -> Parsed<(ProtocolVersion, Seq<Method>)> {
    if s.len() < 2 {
        Parsed::Short
    } else if s[1] == 0 {
        Parsed::Malformed
    } else if s.len() < 2 + s[1] {
        Parsed::Short
    } else {
        Parsed::Done(
            (
                ProtocolVersion(s[0]),
                s.subrange(2, 2 + s[1]).map_values(|b: u8| Method::spec_from_code(b)),
            ),
            (2 + s[1]) as nat,
        )
    }
}

/// `VER | METHOD`
pub open spec fn spec_encode_selection(m: MethodSelection) -> Seq<u8> {
    seq![m.version.0, m.method.spec_code()]
}

pub open spec fn spec_parse_selection(s: Seq<u8>) -> Parsed<MethodSelection> {
    if s.len() < 2 {
        Parsed::Short
    } else {
        Parsed::Done(
            MethodSelection { version: ProtocolVersion(s[0]), method: Method::spec_from_code(s[1]) },
            2,
        )
    }
}

pub open spec fn spec_cmd_code(c: Command) -> u8 {
    match c {
        Command::Connect => 1,
        Command::Bind => 2,
        Command::UdpAssociate => 3,
    }
}

pub open spec fn spec_cmd_of(b: u8) -> Option<Command> {
    if b == 1 {
        Some(Command::Connect)
    } else if b == 2 {
        Some(Command::Bind)
    } else if b == 3 {
        Some(Command::UdpAssociate)
    } else {
        None
    }
}

/// `VER | CMD | RSV | ATYP | DST.ADDR | DST.PORT`
pub open spec fn spec_encode_request(m: (ProtocolVersion, Command, AddrView)) -> Seq<u8> {
    seq![m.0.0, spec_cmd_code(m.1), RESERVED] + spec_encode_addr(m.2)
}

/// Decodes an address that starts at `off`, as part of a message of `T`.
pub open spec fn spec_parse_tail<T>(s: Seq<u8>, off: nat, f: spec_fn(AddrView) -> T) -> Parsed<T> {
    match spec_parse_addr(s.subrange(off as int, s.len() as int)) {
        Parsed::Short => Parsed::Short,
        Parsed::Malformed => Parsed::Malformed,
        Parsed::Done(a, n) => Parsed::Done(f(a), off + n),
    }
}

pub open spec fn spec_parse_request(s: Seq<u8>) -> Parsed<(ProtocolVersion, Command, AddrView)> {
    if s.len() < 2 {
        Parsed::Short
    } else if spec_cmd_of(s[1]) is None {
        Parsed::Malformed
    } else if s.len() < 3 {
        Parsed::Short
    } else if s[2] != RESERVED {
        Parsed::Malformed
    } else {
        spec_parse_tail(s, 3, |a: AddrView| (ProtocolVersion(s[0]), spec_cmd_of(s[1])->0, a))
    }
}

pub open spec fn spec_rep_code(r: Result<(), ConnectError>) -> u8 {
    match r {
        Ok(()) => 0,
        Err(ConnectError::ServerFailure) => 1,
        Err(ConnectError::ConnectionNotAllowed) => 2,
        Err(ConnectError::NetworkUnreachable) => 3,
        Err(ConnectError::HostUnreachable) => 4,
        Err(ConnectError::ConnectionRefused) => 5,
        Err(ConnectError::TtlExpired) => 6,
        Err(ConnectError::CommandNotSupported) => 7,
        Err(ConnectError::AddrTypeNotSupported) => 8,
    }
}

pub open spec fn spec_rep_of(b: u8) -> Option<Result<(), ConnectError>> {
    if b == 0 {
        Some(Ok(()))
    } else if b == 1 {
        Some(Err(ConnectError::ServerFailure))
    } else if b == 2 {
        Some(Err(ConnectError::ConnectionNotAllowed))
    } else if b == 3 {
        Some(Err(ConnectError::NetworkUnreachable))
    } else if b == 4 {
        Some(Err(ConnectError::HostUnreachable))
    } else if b == 5 {
        Some(Err(ConnectError::ConnectionRefused))
    } else if b == 6 {
        Some(Err(ConnectError::TtlExpired))
    } else if b == 7 {
        Some(Err(ConnectError::CommandNotSupported))
    } else if b == 8 {
        Some(Err(ConnectError::AddrTypeNotSupported))
    } else {
        None
    }
}

/// `VER | REP | RSV | ATYP | BND.ADDR | BND.PORT`
pub open spec fn spec_encode_reply(m: (ProtocolVersion, Result<(), ConnectError>, AddrView)) -> Seq<u8> {
    seq![m.0.0, spec_rep_code(m.1), RESERVED] + spec_encode_addr(m.2)
}

pub open spec fn spec_parse_reply(s: Seq<u8>) -> Parsed<(ProtocolVersion, Result<(), ConnectError>, AddrView)> {
    if s.len() < 2 {
        Parsed::Short
    } else if spec_rep_of(s[1]) is None {
        Parsed::Malformed
    } else if s.len() < 3 {
        Parsed::Short
    } else if s[2] != RESERVED {
        Parsed::Malformed
    } else {
        spec_parse_tail(s, 3, |a: AddrView| (ProtocolVersion(s[0]), spec_rep_of(s[1])->0, a))
    }
}

/// `RSV(2) | FRAG | ATYP | DST.ADDR | DST.PORT | DATA`
pub open spec fn spec_encode_datagram(frag: u8, dst: AddrView, data: Seq<u8>) -> Seq<u8> {
    seq![RESERVED, RESERVED, frag] + spec_encode_addr(dst) + data
}

/// Decodes a UDP datagram; the payload is everything after the header.
pub open spec fn spec_parse_datagram(s: Seq<u8>) -> Parsed<(u8, AddrView, Seq<u8>)> {
    if s.len() < 1 {
        Parsed::Short
    } else if s[0] != RESERVED {
        Parsed::Malformed
    } else if s.len() < 2 {
        Parsed::Short
    } else if s[1] != RESERVED {
        Parsed::Malformed
    } else if s.len() < 3 {
        Parsed::Short
    } else {
        match spec_parse_addr(s.subrange(3, s.len() as int)) {
            Parsed::Short => Parsed::Short,
            Parsed::Malformed => Parsed::Malformed,
            Parsed::Done(a, n) => Parsed::Done((s[2], a, s.subrange(3 + n as int, s.len() as int)), s.len()),
        }
    }
}

// ---------------------------------------------------------------------------
// Round trips
// ---------------------------------------------------------------------------

proof fn lemma_addr_round_trip(a: AddrView, rest: Seq<u8>)
    requires
        addr_encodable(a),
    ensures
        spec_parse_addr(spec_encode_addr(a) + rest) == Parsed::Done(a, spec_encode_addr(a).len()),
{
    lemma_pow256_values();
    let e = spec_encode_addr(a);
    let s = e + rest;
    match a {
        AddrView::Ip(IpAddr::V4(x), p) => {
            lemma_be_round_trip(x as nat, 4);
            lemma_be_round_trip(p as nat, 2);
            assert(s.subrange(1, 5) =~= be_bytes(x as nat, 4));
            assert(s.subrange(5, 7) =~= be_bytes(p as nat, 2));
        },
        AddrView::Ip(IpAddr::V6(x), p) => {
            lemma_be_round_trip(x as nat, 16);
            lemma_be_round_trip(p as nat, 2);
            assert(s.subrange(1, 17) =~= be_bytes(x as nat, 16));
            assert(s.subrange(17, 19) =~= be_bytes(p as nat, 2));
        },
        AddrView::Domain(d, p) => {
            lemma_be_round_trip(p as nat, 2);
            let b = encode_utf8(d);
            let n = b.len() as int;
            assert(s[1] == n as u8);
            assert(s.subrange(2, 2 + n) =~= b);
            assert(s.subrange(2 + n, 4 + n) =~= be_bytes(p as nat, 2));
        },
    }
}

/// Candidates that the format can carry: 1 to 255 well-formed methods.
pub open spec fn candidates_valid(m: (ProtocolVersion, Seq<Method>)) -> bool {
    &&& 1 <= m.1.len() <= 255
    &&& forall|i: int| 0 <= i < m.1.len() ==> (#[trigger] m.1[i]).wf()
}

/// Decoding the encoding of valid candidates gives them back, whatever follows.
pub proof fn lemma_candidates_round_trip(m: (ProtocolVersion, Seq<Method>), rest: Seq<u8>)
    requires
        candidates_valid(m),
    ensures
        spec_parse_candidates(spec_encode_candidates(m) + rest) == Parsed::Done(
            m,
            spec_encode_candidates(m).len(),
        ),
{
    let e = spec_encode_candidates(m);
    let s = e + rest;
    let n = m.1.len() as int;
    assert(s[1] == n as u8);
    let ms = s.subrange(2, 2 + n).map_values(|b: u8| Method::spec_from_code(b));
    assert forall|i: int| 0 <= i < n implies ms[i] == m.1[i] by {
        lemma_method_code_round_trip(m.1[i]);
    }
    assert(ms =~= m.1);
}

/// Decoding the encoding of a selection of a well-formed method gives it back.
pub proof fn lemma_selection_round_trip(m: MethodSelection, rest: Seq<u8>)
    requires
        m.method.wf(),
    ensures
        spec_parse_selection(spec_encode_selection(m) + rest) == Parsed::Done(m, 2),
{
    lemma_method_code_round_trip(m.method);
    let s = spec_encode_selection(m) + rest;
    assert(s[0] == m.version.0 && s[1] == m.method.spec_code());
}

/// Decoding the encoding of a request gives it back, whatever follows.
pub proof fn lemma_request_round_trip(m: (ProtocolVersion, Command, AddrView), rest: Seq<u8>)
    requires
        addr_encodable(m.2),
    ensures
        spec_parse_request(spec_encode_request(m) + rest) == Parsed::Done(m, spec_encode_request(m).len()),
{
    let s = spec_encode_request(m) + rest;
    let tail = s.subrange(3, s.len() as int);
    assert(tail =~= spec_encode_addr(m.2) + rest);
    lemma_addr_round_trip(m.2, rest);
    assert(spec_cmd_of(spec_cmd_code(m.1)) == Some(m.1));
    assert(s[1] == spec_cmd_code(m.1));
    assert(s[2] == RESERVED);
}

proof fn lemma_rep_code(r: Result<(), ConnectError>)
    ensures
        spec_rep_of(spec_rep_code(r)) == Some(r),
{
    match r {
        Ok(u) => {
            assert(r == Ok::<(), ConnectError>(()));
        },
        Err(e) => {
            assert(r == Err::<(), ConnectError>(e));
            match e {
                ConnectError::ServerFailure => {},
                ConnectError::ConnectionNotAllowed => {},
                ConnectError::NetworkUnreachable => {},
                ConnectError::HostUnreachable => {},
                ConnectError::ConnectionRefused => {},
                ConnectError::TtlExpired => {},
                ConnectError::CommandNotSupported => {},
                ConnectError::AddrTypeNotSupported => {},
            }
        },
    }
}

/// Decoding an encoded datagram gives back its header and payload.
pub proof fn lemma_datagram_round_trip(frag: u8, dst: AddrView, data: Seq<u8>)
    requires
        addr_encodable(dst),
    ensures
        spec_parse_datagram(spec_encode_datagram(frag, dst, data)) == Parsed::Done(
            (frag, dst, data),
            spec_encode_datagram(frag, dst, data).len(),
        ),
{
    let s = spec_encode_datagram(frag, dst, data);
    let tail = s.subrange(3, s.len() as int);
    assert(tail =~= spec_encode_addr(dst) + data);
    lemma_addr_round_trip(dst, data);
    let n = spec_encode_addr(dst).len() as int;
    assert(s.subrange(3 + n, s.len() as int) =~= data);
}

/// Decoding the encoding of a reply gives it back, whatever follows.
pub proof fn lemma_reply_round_trip(m: (ProtocolVersion, Result<(), ConnectError>, AddrView), rest: Seq<u8>)
    requires
        addr_encodable(m.2),
    ensures
        spec_parse_reply(spec_encode_reply(m) + rest) == Parsed::Done(m, spec_encode_reply(m).len()),
{
    let s = spec_encode_reply(m) + rest;
    let tail = s.subrange(3, s.len() as int);
    assert(tail =~= spec_encode_addr(m.2) + rest);
    lemma_addr_round_trip(m.2, rest);
    lemma_rep_code(m.1);
    assert(spec_rep_of(spec_rep_code(m.1)) == Some(m.1));
    assert(s[1] == spec_rep_code(m.1));
    assert(s[2] == RESERVED);
}

// ---------------------------------------------------------------------------
// Executable encoders and decoders
// ---------------------------------------------------------------------------

fn format_error(message: &str) -> (r: Error)
    ensures
        r matches Error::MessageFormat { .. },
{
    Error::MessageFormat { message: message.to_owned() }
}

/// Appends `ATYP | ADDR | PORT`; fails on a domain name over 255 bytes.
fn encode_addr(out: &mut Vec<u8>, a: &Address) -> (r: Result<(), Error>)
    ensures
        addr_encodable(a@) ==> r is Ok && final(out)@ == old(out)@ + spec_encode_addr(a@),
        !addr_encodable(a@) ==> (r matches Err(Error::InvalidInput { .. }) && final(out)@ == old(out)@),
{
    match a {
        Address::IpAddr(IpAddr::V4(x), p) => {
            out.push(1u8);
            push_be(out, *x as u128, 4);
            push_be(out, *p as u128, 2);
            assert(final(out)@ =~= old(out)@ + spec_encode_addr(a@));
        },
        Address::IpAddr(IpAddr::V6(x), p) => {
            out.push(4u8);
            push_be(out, *x, 16);
            push_be(out, *p as u128, 2);
            assert(final(out)@ =~= old(out)@ + spec_encode_addr(a@));
        },
        Address::Domain(d, p) => {
            let bytes = d.as_str().as_bytes();
            let n = bytes.len();
            if n > MAX_DOMAIN_LEN {
                return Err(Error::InvalidInput { message: "domain name is too long".to_owned() });
            }
            out.push(3u8);
            out.push(n as u8);
            let ghost before = out@;
            let mut i: usize = 0;
            while i < n
                invariant
                    n == bytes@.len(),
                    i <= n,
                    out@ == before + bytes@.subrange(0, i as int),
                decreases n - i,
            {
                out.push(bytes[i]);
                proof {
                    assert(bytes@.subrange(0, i + 1) =~= bytes@.subrange(0, i as int).push(bytes@[i as int]));
                }
                i = i + 1;
            }
            assert(bytes@.subrange(0, n as int) =~= bytes@);
            push_be(out, *p as u128, 2);
            assert(final(out)@ =~= old(out)@ + spec_encode_addr(a@));
        },
    }
    Ok(())
}

/// Decodes `ATYP | ADDR | PORT` from `buf[off ..]`; the count is relative to `off`.
fn decode_addr(buf: &[u8], off: usize) -> (r: Result<(Address, usize), Error>)
    requires
        off <= buf@.len(),
    ensures
        decoded_as(r, spec_parse_addr(buf@.subrange(off as int, buf@.len() as int)), |m: Address| m@),
{
    let ghost s = buf@.subrange(off as int, buf@.len() as int);
    let len = buf.len();
    let rest = len - off;
    if rest < 1 {
        return Err(Error::Io);
    }
    let atyp = buf[off];
    if atyp == 1 {
        if rest < 7 {
            return Err(Error::Io);
        }
        let a = read_be(buf, off + 1, 4);
        let p = read_be(buf, off + 5, 2);
        proof {
            assert(buf@.subrange(off + 1, off + 1 + 4) =~= s.subrange(1, 5));
            assert(buf@.subrange(off + 5, off + 5 + 2) =~= s.subrange(5, 7));
            lemma_be_nat_bound(s.subrange(1, 5));
            lemma_be_nat_bound(s.subrange(5, 7));
            lemma_pow256_values();
        }
        Ok((Address::IpAddr(IpAddr::V4(a as u32), p as u16), 7))
    } else if atyp == 4 {
        if rest < 19 {
            return Err(Error::Io);
        }
        let a = read_be(buf, off + 1, 16);
        let p = read_be(buf, off + 17, 2);
        proof {
            assert(buf@.subrange(off + 1, off + 1 + 16) =~= s.subrange(1, 17));
            assert(buf@.subrange(off + 17, off + 17 + 2) =~= s.subrange(17, 19));
            lemma_be_nat_bound(s.subrange(17, 19));
            lemma_pow256_values();
        }
        Ok((Address::IpAddr(IpAddr::V6(a), p as u16), 19))
    } else if atyp == 3 {
        if rest < 2 {
            return Err(Error::Io);
        }
        let n = buf[off + 1] as usize;
        if rest < 4 + n {
            return Err(Error::Io);
        }
        let bytes = copy_range(buf, off + 2, off + 2 + n);
        let domain = string_from_utf8_lossy(bytes.as_slice());
        let p = read_be(buf, off + 2 + n, 2);
        proof {
            assert(bytes@ =~= s.subrange(2, 2 + s[1]));
            assert(buf@.subrange(off + 2 + n, off + 2 + n + 2) =~= s.subrange(2 + s[1], 4 + s[1]));
            lemma_be_nat_bound(s.subrange(2 + s[1], 4 + s[1]));
            lemma_pow256_values();
        }
        Ok((Address::Domain(domain, p as u16), 4 + n))
    } else {
        Err(format_error("unknown address type"))
    }
}

/// Encodes `VER | NMETHODS | METHODS`; fails unless there are 1 to 255 methods.
pub fn encode_method_candidates(m: &MethodCandidates) -> (r: Result<Vec<u8>, Error>)
    ensures
        1 <= m.method@.len() <= 255 ==> (r matches Ok(v) && v@ == spec_encode_candidates(m@)),
        !(1 <= m.method@.len() <= 255) ==> r matches Err(Error::InvalidInput { .. }),
{
    let n = m.method.len();
    if n == 0 || n > 255 {
        return Err(Error::InvalidInput { message: "the number of methods must be 1 to 255".to_owned() });
    }
    let mut out: Vec<u8> = Vec::new();
    out.push(m.version.0);
    out.push(n as u8);
    let mut i: usize = 0;
    while i < n
        invariant
            n == m.method@.len(),
            i <= n,
            out@ == seq![m.version.0, n as u8] + m.method@.subrange(0, i as int).map_values(
                |x: Method| x.spec_code(),
            ),
        decreases n - i,
    {
        out.push(m.method[i].code());
        assert(m.method@.subrange(0, i + 1).map_values(|x: Method| x.spec_code()) =~= m.method@.subrange(
            0,
            i as int,
        ).map_values(|x: Method| x.spec_code()).push(m.method@[i as int].spec_code()));
        i = i + 1;
    }
    assert(m.method@.subrange(0, n as int) =~= m.method@);
    Ok(out)
}

/// Decodes `VER | NMETHODS | METHODS`; `NMETHODS` must be at least 1.
pub fn decode_method_candidates(buf: &[u8]) -> (r: Result<(MethodCandidates, usize), Error>)
    ensures
        decoded_as(r, spec_parse_candidates(buf@), |m: MethodCandidates| m@),
{
    let len = buf.len();
    if len < 2 {
        return Err(Error::Io);
    }
    let n = buf[1] as usize;
    if n == 0 {
        return Err(format_error("no methods offered"));
    }
    if len < 2 + n {
        return Err(Error::Io);
    }
    let mut methods: Vec<Method> = Vec::new();
    let mut i: usize = 0;
    while i < n
        invariant
            n == buf@[1],
            2 + n <= buf@.len(),
            i <= n,
            methods@ == buf@.subrange(2, 2 + i).map_values(|b: u8| Method::spec_from_code(b)),
        decreases n - i,
    {
        methods.push(Method::from_code(buf[2 + i]));
        assert(buf@.subrange(2, 2 + i + 1).map_values(|b: u8| Method::spec_from_code(b)) =~= buf@.subrange(
            2,
            2 + i,
        ).map_values(|b: u8| Method::spec_from_code(b)).push(Method::spec_from_code(buf@[2 + i])));
        i = i + 1;
    }
    Ok((MethodCandidates { version: ProtocolVersion(buf[0]), method: methods }, 2 + n))
}

/// Encodes `VER | METHOD`.
pub fn encode_method_selection(m: MethodSelection) -> (r: Vec<u8>)
    ensures
        r@ == spec_encode_selection(m),
{
    let mut out: Vec<u8> = Vec::new();
    out.push(m.version.0);
    out.push(m.method.code());
    assert(out@ =~= spec_encode_selection(m));
    out
}

/// Decodes `VER | METHOD`.
pub fn decode_method_selection(buf: &[u8]) -> (r: Result<(MethodSelection, usize), Error>)
    ensures
        decoded_as(r, spec_parse_selection(buf@), |m: MethodSelection| m),
{
    if buf.len() < 2 {
        return Err(Error::Io);
    }
    Ok((MethodSelection { version: ProtocolVersion(buf[0]), method: Method::from_code(buf[1]) }, 2))
}

/// Encodes `VER | CMD | RSV | ATYP | DST.ADDR | DST.PORT`; fails on a domain over 255 bytes.
pub fn encode_connect_request(m: &ConnectRequest) -> (r: Result<Vec<u8>, Error>)
    ensures
        addr_encodable(m.connect_to@) ==> (r matches Ok(v) && v@ == spec_encode_request(m@)),
        !addr_encodable(m.connect_to@) ==> r matches Err(Error::InvalidInput { .. }),
{
    let mut out: Vec<u8> = Vec::new();
    out.push(m.version.0);
    out.push(SockCommand::from_command(m.command).code());
    out.push(RESERVED);
    let ghost head = out@;
    match encode_addr(&mut out, &m.connect_to) {
        Ok(()) => {},
        Err(e) => return Err(e),
    }
    assert(head =~= seq![m.version.0, spec_cmd_code(m.command), RESERVED]);
    Ok(out)
}

/// Decodes `VER | CMD | RSV | ATYP | DST.ADDR | DST.PORT`.
pub fn decode_connect_request(buf: &[u8]) -> (r: Result<(ConnectRequest, usize), Error>)
    ensures
        decoded_as(r, spec_parse_request(buf@), |m: ConnectRequest| m@),
{
    let len = buf.len();
    if len < 2 {
        return Err(Error::Io);
    }
    let cmd = match SockCommand::try_from_u8(buf[1]) {
        Ok(c) => c.into_command(),
        Err(_) => return Err(format_error("unknown command")),
    };
    if len < 3 {
        return Err(Error::Io);
    }
    if buf[2] != RESERVED {
        return Err(format_error("reserved byte is not 0"));
    }
    match decode_addr(buf, 3) {
        Ok((addr, n)) => Ok((ConnectRequest { version: ProtocolVersion(buf[0]), command: cmd, connect_to: addr }, 3 + n)),
        Err(e) => Err(e),
    }
}

/// Encodes `VER | REP | RSV | ATYP | BND.ADDR | BND.PORT`; fails on a domain over 255 bytes.
pub fn encode_connect_reply(m: &ConnectReply) -> (r: Result<Vec<u8>, Error>)
    ensures
        addr_encodable(m.server_addr@) ==> (r matches Ok(v) && v@ == spec_encode_reply(m@)),
        !addr_encodable(m.server_addr@) ==> r matches Err(Error::InvalidInput { .. }),
{
    let mut out: Vec<u8> = Vec::new();
    out.push(m.version.0);
    out.push(ResponseCode::from_result(m.connect_result).code());
    out.push(RESERVED);
    let ghost head = out@;
    match encode_addr(&mut out, &m.server_addr) {
        Ok(()) => {},
        Err(e) => return Err(e),
    }
    assert(head =~= seq![m.version.0, spec_rep_code(m.connect_result), RESERVED]);
    Ok(out)
}

/// Decodes `VER | REP | RSV | ATYP | BND.ADDR | BND.PORT`.
pub fn decode_connect_reply(buf: &[u8]) -> (r: Result<(ConnectReply, usize), Error>)
    ensures
        decoded_as(r, spec_parse_reply(buf@), |m: ConnectReply| m@),
{
    let len = buf.len();
    if len < 2 {
        return Err(Error::Io);
    }
    let rep = match ResponseCode::from_u8(buf[1]) {
        Ok(c) => c.into_result(),
        Err(_) => return Err(format_error("unknown reply code")),
    };
    if len < 3 {
        return Err(Error::Io);
    }
    if buf[2] != RESERVED {
        return Err(format_error("reserved byte is not 0"));
    }
    match decode_addr(buf, 3) {
        Ok((addr, n)) => Ok((ConnectReply { version: ProtocolVersion(buf[0]), connect_result: rep, server_addr: addr }, 3 + n)),
        Err(e) => Err(e),
    }
}

/// Encodes a UDP datagram; fails on a domain name over 255 bytes.
pub fn encode_datagram(d: &UdpDatagram) -> (r: Result<Vec<u8>, Error>)
    ensures
        addr_encodable(d.dst_addr@) ==> (r matches Ok(v) && v@ == spec_encode_datagram(d.frag, d.dst_addr@, d.data@)),
        !addr_encodable(d.dst_addr@) ==> r matches Err(Error::InvalidInput { .. }),
{
    let mut out: Vec<u8> = Vec::new();
    out.push(RESERVED);
    out.push(RESERVED);
    out.push(d.frag);
    let ghost head = out@;
    match encode_addr(&mut out, &d.dst_addr) {
        Ok(()) => {},
        Err(e) => return Err(e),
    }
    let ghost mid = out@;
    let n = d.data.len();
    let mut i: usize = 0;
    while i < n
        invariant
            n == d.data@.len(),
            i <= n,
            out@ == mid + d.data@.subrange(0, i as int),
        decreases n - i,
    {
        out.push(d.data[i]);
        assert(d.data@.subrange(0, i + 1) =~= d.data@.subrange(0, i as int).push(d.data@[i as int]));
        i = i + 1;
    }
    assert(d.data@.subrange(0, n as int) =~= d.data@);
    assert(head =~= seq![RESERVED, RESERVED, d.frag]);
    assert(out@ =~= spec_encode_datagram(d.frag, d.dst_addr@, d.data@));
    Ok(out)
}

/// Parses a UDP datagram as sent on a UDP-associated socket.
pub fn read_datagram(buf: &[u8]) -> (r: Result<UdpDatagram, Error>)
    ensures
        match spec_parse_datagram(buf@) {
            Parsed::Short => r == Err::<UdpDatagram, Error>(Error::Io),
            Parsed::Malformed => r matches Err(Error::MessageFormat { .. }),
            Parsed::Done(v, _) => (r matches Ok(d) && d.frag == v.0 && d.dst_addr@ == v.1 && d.data@ == v.2),
        },
{
    let len = buf.len();
    if len < 1 {
        return Err(Error::Io);
    }
    if buf[0] != RESERVED {
        return Err(format_error("reserved byte is not 0"));
    }
    if len < 2 {
        return Err(Error::Io);
    }
    if buf[1] != RESERVED {
        return Err(format_error("reserved byte is not 0"));
    }
    if len < 3 {
        return Err(Error::Io);
    }
    match decode_addr(buf, 3) {
        Ok((addr, n)) => {
            let data = copy_range(buf, 3 + n, len);
            Ok(UdpDatagram { frag: buf[2], dst_addr: addr, data })
        },
        Err(e) => Err(e),
    }
}

} // verus!
