//! SOCKS5 message types exchanged between a client and the proxy.
use vstd::prelude::*;

verus! {

/// The protocol version spoken on successful paths.
pub const SOCKS_VERSION: u8 = 5;

/// The one-byte protocol version carried by every message.
#[derive(Debug, Clone, Copy, PartialEq, Eq, Structural)]
pub struct ProtocolVersion(pub u8);

impl ProtocolVersion {
    pub fn code(&self) -> (r: u8)
        ensures
            r == self.0,
    {
        self.0
    }
}

/// Authentication methods.
#[derive(Debug, Clone, Copy, PartialEq, Eq, Structural)]
pub enum Method {
    /// No authentication required
    NoAuth,
    /// GSSAPI
    GssApi,
    /// Username / password
    UserPass,
    /// IANA assigned method (0x03 ..= 0x7F)
    IANAMethod(u8),
    /// Reserved for private methods (0x80 ..= 0xFE)
    Private(u8),
    /// No acceptable method (reply only)
    NoMethods,
}

impl Method {
    /// The method's byte lies in the range its variant stands for.
    pub open spec fn wf(self) -> bool {
        match self {
            Method::IANAMethod(c) => 0x03 <= c <= 0x7f,
            Method::Private(c) => 0x80 <= c <= 0xfe,
            _ => true,
        }
    }

    pub open spec fn spec_code(self) -> u8 {
        match self {
            Method::NoAuth => 0x00,
            Method::GssApi => 0x01,
            Method::UserPass => 0x02,
            Method::IANAMethod(c) => c,
            Method::Private(c) => c,
            Method::NoMethods => 0xff,
        }
    }

    pub open spec fn spec_from_code(code: u8) -> Method {
        if code == 0x00 {
            Method::NoAuth
        } else if code == 0x01 {
            Method::GssApi
        } else if code == 0x02 {
            Method::UserPass
        } else if code <= 0x7f {
            Method::IANAMethod(code)
        } else if code <= 0xfe {
            Method::Private(code)
        } else {
            Method::NoMethods
        }
    }

    /// The byte that stands for this method on the wire.
    pub fn code(&self) -> (r: u8)
        ensures
            r == self.spec_code(),
    {
        match self {
            Method::NoAuth => 0x00,
            Method::GssApi => 0x01,
            Method::UserPass => 0x02,
            Method::IANAMethod(c) => *c,
            Method::Private(c) => *c,
            Method::NoMethods => 0xff,
        }
    }

    /// The method that a byte on the wire stands for.
    pub fn from_code(code: u8) -> (r: Method)
        ensures
            r == Method::spec_from_code(code),
            r.wf(),
    {
        if code == 0x00 {
            Method::NoAuth
        } else if code == 0x01 {
            Method::GssApi
        } else if code == 0x02 {
            Method::UserPass
        } else if code <= 0x7f {
            Method::IANAMethod(code)
        } else if code <= 0xfe {
            Method::Private(code)
        } else {
            Method::NoMethods
        }
    }
}

/// Decoding the code of a well-formed method gives the method back.
pub proof fn lemma_method_code_round_trip(m: Method)
    requires
        m.wf(),
    ensures
        Method::spec_from_code(m.spec_code()) == m,
{
}

/// Methods proposed by the client.
#[derive(Debug, Clone, PartialEq, Eq)]
pub struct MethodCandidates {
    pub version: ProtocolVersion,
    pub method: Vec<Method>,
}

impl MethodCandidates {
    /// Candidates of the default protocol version.
    pub fn new(method: &[Method]) -> (r: Self)
        ensures
            r.version.0 == SOCKS_VERSION,
            r.method@ == method@,
    {
        let mut v: Vec<Method> = Vec::new();
        let mut i: usize = 0;
        while i < method.len()
            invariant
                i <= method@.len(),
                v@ == method@.subrange(0, i as int),
            decreases method@.len() - i,
        {
            v.push(method[i]);
            i = i + 1;
        }
        assert(v@ == method@);
        MethodCandidates { version: ProtocolVersion(SOCKS_VERSION), method: v }
    }
}

/// The method chosen by the proxy.
#[derive(Debug, Clone, Copy, PartialEq, Eq, Structural)]
pub struct MethodSelection {
    pub version: ProtocolVersion,
    pub method: Method,
}

#[derive(Debug, Clone, Copy, PartialEq, Eq, Structural)]
pub enum Command {
    Connect,
    Bind,
    UdpAssociate,
}

/// An IP address: IPv4 as a 32-bit and IPv6 as a 128-bit big-endian number.
#[derive(Debug, Clone, Copy, PartialEq, Eq, Structural)]
pub enum IpAddr {
    V4(u32),
    V6(u128),
}

impl IpAddr {
    /// The IPv4 address `a.b.c.d`.
    pub fn v4(a: u8, b: u8, c: u8, d: u8) -> (r: IpAddr)
        ensures
            r == IpAddr::V4(
                ((a as u32) * 0x1000000 + (b as u32) * 0x10000 + (c as u32) * 0x100 + (d as u32)) as u32,
            ),
    {
        IpAddr::V4((a as u32) * 0x1000000 + (b as u32) * 0x10000 + (c as u32) * 0x100 + (d as u32))
    }

    /// The IPv6 address made of eight 16-bit segments, most significant first.
    pub fn v6(s: [u16; 8]) -> (r: IpAddr)
        ensures
            r == IpAddr::V6(segments_value(s@, 8)),
    {
        let mut v: u128 = 0;
        let mut i: usize = 0;
        while i < 8
            invariant
                i <= 8,
                s@.len() == 8,
                v == segments_value(s@, i as nat),
                v < pow2_16(i as nat),
            decreases 8 - i,
        {
            proof {
                lemma_pow2_16_step(i as nat);
            }
            assert(v * 0x10000 + s@[i as int] < pow2_16((i + 1) as nat)) by (nonlinear_arith)
                requires
                    v < pow2_16(i as nat),
                    s@[i as int] < 0x10000,
                    pow2_16((i + 1) as nat) == pow2_16(i as nat) * 0x10000,
            ;
            proof {
                lemma_pow2_16_bound((i + 1) as nat);
            }
            v = v * 0x10000 + s[i] as u128;
            i = i + 1;
        }
        IpAddr::V6(v)
    }
}

/// 2^(16 n).
pub open spec fn pow2_16(n: nat) -> nat
    decreases n,
{
    if n == 0 {
        1
    } else {
        pow2_16((n - 1) as nat) * 0x10000
    }
}

proof fn lemma_pow2_16_step(n: nat)
    ensures
        pow2_16(n + 1) == pow2_16(n) * 0x10000,
{
}

proof fn lemma_pow2_16_bound(n: nat)
    requires
        n <= 8,
    ensures
        pow2_16(n) <= 0x1_0000_0000_0000_0000_0000_0000_0000_0000,
    decreases n,
{
    reveal_with_fuel(pow2_16, 9);
    if n > 0 {
        lemma_pow2_16_bound((n - 1) as nat);
    }
}

/// The number whose base-65536 digits are the first `n` segments.
pub open spec fn segments_value(s: Seq<u16>, n: nat) -> u128
    decreases n,
{
    if n == 0 {
        0
    } else {
        (segments_value(s, (n - 1) as nat) * 0x10000 + s[n - 1]) as u128
    }
}

/// A destination: an IP address or a domain name, with a port.
#[derive(Debug, Clone, PartialEq, Eq)]
pub enum Address {
    IpAddr(IpAddr, u16),
    Domain(String, u16),
}

impl Address {
    pub open spec fn spec_port(&self) -> u16 {
        match self {
            Address::IpAddr(_, port) => *port,
            Address::Domain(_, port) => *port,
        }
    }

    pub fn port(&self) -> (r: u16)
        ensures
            r == self.spec_port(),
            r == self@.port(),
    {
        match self {
            Address::IpAddr(_, port) => *port,
            Address::Domain(_, port) => *port,
        }
    }

    /// A copy of this address.
    pub fn duplicate(&self) -> (r: Address)
        ensures
            r == *self,
    {
        match self {
            Address::IpAddr(a, port) => Address::IpAddr(*a, *port),
            Address::Domain(d, port) => Address::Domain(d.clone(), *port),
        }
    }
}

/// A destination address as a mathematical value.
pub enum AddrView {
    Ip(IpAddr, u16),
    Domain(Seq<char>, u16),
}

impl View for Address {
    type V = AddrView;

    open spec fn view(&self) -> AddrView {
        match self {
            Address::IpAddr(a, p) => AddrView::Ip(*a, *p),
            Address::Domain(d, p) => AddrView::Domain(d@, *p),
        }
    }
}

impl AddrView {
    pub open spec fn port(self) -> u16 {
        match self {
            AddrView::Ip(_, p) => p,
            AddrView::Domain(_, p) => p,
        }
    }
}

#[derive(Debug, Clone, PartialEq, Eq)]
pub struct ConnectRequest {
    pub version: ProtocolVersion,
    pub command: Command,
    pub connect_to: Address,
}

impl ConnectRequest {
    pub fn connect_to(addr: Address) -> (r: Self)
        ensures
            r == (ConnectRequest { version: ProtocolVersion(SOCKS_VERSION), command: Command::Connect, connect_to: addr }),
    {
        ConnectRequest { version: ProtocolVersion(SOCKS_VERSION), command: Command::Connect, connect_to: addr }
    }

    pub fn bind(addr: Address) -> (r: Self)
        ensures
            r == (ConnectRequest { version: ProtocolVersion(SOCKS_VERSION), command: Command::Bind, connect_to: addr }),
    {
        ConnectRequest { version: ProtocolVersion(SOCKS_VERSION), command: Command::Bind, connect_to: addr }
    }

    pub fn udp_associate(addr: Address) -> (r: Self)
        ensures
            r == (ConnectRequest {
                version: ProtocolVersion(SOCKS_VERSION),
                command: Command::UdpAssociate,
                connect_to: addr,
            }),
    {
        ConnectRequest {
            version: ProtocolVersion(SOCKS_VERSION),
            command: Command::UdpAssociate,
            connect_to: addr,
        }
    }
}

/// Failure codes of a connect reply (reply codes 0x01 ..= 0x08).
#[derive(Debug, Clone, Copy, PartialEq, Eq, Structural)]
pub enum ConnectError {
    ServerFailure,
    ConnectionNotAllowed,
    NetworkUnreachable,
    HostUnreachable,
    ConnectionRefused,
    TtlExpired,
    CommandNotSupported,
    AddrTypeNotSupported,
}

#[derive(Debug, PartialEq, Eq)]
pub struct ConnectReply {
    pub version: ProtocolVersion,
    pub connect_result: Result<(), ConnectError>,
    pub server_addr: Address,
}

/// A datagram of a UDP association: its header fields and its payload.
#[derive(Debug, Clone, PartialEq, Eq)]
pub struct UdpDatagram {
    pub frag: u8,
    pub dst_addr: Address,
    pub data: Vec<u8>,
}

#[derive(Debug, Clone, Copy, PartialEq, Eq, Structural)]
pub enum L4Protocol {
    Tcp,
    Udp,
}

} // verus!
