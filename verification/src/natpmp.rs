//! The NAT-PMP wire format and the client that speaks it.
//!
//! Public-address response (12 bytes): version, opcode 128, result code
//! (big-endian `u16`), seconds since epoch (4 bytes), external IPv4 address.
//!
//! Port-mapping response (16 bytes): version, opcode 129 (UDP) or 130 (TCP),
//! result code, seconds since epoch, private port, public port (big-endian
//! `u16` each), lifetime (big-endian `u32`).

use vstd::prelude::*;

use crate::addr::Ipv4Addr;
use crate::text;
use crate::transaction::Transaction;

verus! {

/// The UDP port on which a gateway listens.
pub const NATPMP_PORT: u16 = 5351;

/// The opcode of a public-address response.
pub const OP_PUBLIC_ADDRESS: u8 = 128;

/// The opcode of a UDP port-mapping response.
pub const OP_MAP_UDP: u8 = 129;

/// The opcode of a TCP port-mapping response.
pub const OP_MAP_TCP: u8 = 130;

/// The transport protocol of a mapped port.
#[derive(Debug, Clone, Copy, PartialEq, Eq, Structural)]
pub enum Protocol {
    Udp,
    Tcp,
}

impl Protocol {
    /// The opcode of a mapping request.
    pub open spec fn request_op(self) -> u8 {
        match self {
            Protocol::Udp => 1,
            Protocol::Tcp => 2,
        }
    }

    /// The opcode of the response to a mapping request.
    pub open spec fn response_op(self) -> u8 {
        match self {
            Protocol::Udp => OP_MAP_UDP,
            Protocol::Tcp => OP_MAP_TCP,
        }
    }

    /// The opcodes of a mapping request and of its response.
    pub fn opcodes(self) -> (ops: (u8, u8))
        ensures
            ops == (self.request_op(), self.response_op()),
    {
        match self {
            Protocol::Udp => (1u8, OP_MAP_UDP),
            Protocol::Tcp => (2u8, OP_MAP_TCP),
        }
    }
}

/// A port mapping that a gateway granted.
#[derive(Debug, Clone, Copy, PartialEq, Eq, Structural)]
pub struct PortMapping {
    pub private_port: u16,
    pub public_port: u16,
    pub lifetime: u32,
}

// ---------------------------------------------------------------------------
// Errors
// ---------------------------------------------------------------------------

/// The kind of a failed receive.
#[derive(Debug, Clone, Copy, PartialEq, Eq, Structural)]
pub enum ErrorKind {
    WouldBlock,
    TimedOut,
    ConnectionRefused,
    ConnectionReset,
    BrokenPipe,
    Other,
}

/// A failed receive: its kind and what the system says of it.
#[derive(Debug, PartialEq, Eq)]
pub struct RecvError {
    pub kind: ErrorKind,
    pub detail: String,
}

/// Why a NAT-PMP exchange failed.
#[derive(Debug, PartialEq, Eq)]
pub enum NatpmpError {
    /// Fewer bytes than the response header has.
    ResponseTooShort { got: usize },
    /// A version other than 0.
    UnsupportedVersion { version: u8 },
    /// A response to some other request.
    UnexpectedOpcode { opcode: u8, expected: u8 },
    /// A result code other than 0.
    Server { code: u16 },
    /// A successful response without all of its fields.
    Truncated { got: usize, need: usize },
    /// Nothing listens on the gateway's NAT-PMP port.
    NotNatpmpServer { gateway: Ipv4Addr },
    /// Receiving failed for some other reason.
    Recv { gateway: Ipv4Addr, detail: String },
    /// Every attempt went unanswered.
    NoResponse { gateway: Ipv4Addr },
    /// A granted mapping without a port or without a lifetime.
    Refused { public_port: u16, lifetime: u32 },
}

/// The words for a NAT-PMP result code.
pub open spec fn strerror(code: u16) -> Seq<char> {
    if code == 1 {
        "unsupported version"@
    } else if code == 2 {
        "not authorized"@
    } else if code == 3 {
        "network failure"@
    } else if code == 4 {
        "out of resources"@
    } else if code == 5 {
        "unsupported opcode"@
    } else {
        "unknown error"@
    }
}

/// The words for a NAT-PMP result code.
pub fn natpmp_strerror(code: u16) -> (words: &'static str)
    ensures
        words@ == strerror(code),
{
    match code {
        1 => "unsupported version",
        2 => "not authorized",
        3 => "network failure",
        4 => "out of resources",
        5 => "unsupported opcode",
        _ => "unknown error",
    }
}

/// Whether a receive failed only because nothing arrived in time.
pub open spec fn timed_out(kind: ErrorKind) -> bool {
    kind == ErrorKind::WouldBlock || kind == ErrorKind::TimedOut
}

/// Whether a receive failed because nothing listens on the port.
///
/// An ICMP port-unreachable shows as `ConnectionRefused` on Unix and as
/// `ConnectionReset` on Windows.
pub open spec fn unreachable_port(kind: ErrorKind) -> bool {
    kind == ErrorKind::ConnectionRefused || kind == ErrorKind::ConnectionReset
}

/// Tests whether a receive failed only because nothing arrived in time.
pub fn is_timeout(e: &RecvError) -> (b: bool)
    ensures
        b == timed_out(e.kind),
{
    matches!(e.kind, ErrorKind::WouldBlock | ErrorKind::TimedOut)
}

impl NatpmpError {
    /// The message for this error.
    pub open spec fn text(self) -> Seq<char> {
        match self {
            NatpmpError::ResponseTooShort { got } => "response too short: "@ + text::decimal(
                got as nat,
            ) + " bytes"@,
            NatpmpError::UnsupportedVersion { version } => "unsupported NAT-PMP version "@
                + text::decimal(version as nat),
            NatpmpError::UnexpectedOpcode { opcode, expected } => "unexpected opcode "@
                + text::decimal(opcode as nat) + " (expected "@ + text::decimal(expected as nat)
                + ")"@,
            NatpmpError::Server { code } => "NAT-PMP server error: "@ + strerror(code),
            NatpmpError::Truncated { got, need } => "NAT-PMP response truncated: got "@
                + text::decimal(got as nat) + " bytes, need "@ + text::decimal(need as nat),
            NatpmpError::NotNatpmpServer { gateway } => gateway.dotted()
                + " is not a NAT-PMP server or the VPN is not connected — verify that --gateway is set to the correct address"@,
            NatpmpError::Recv { gateway, detail } => "recv from gateway "@ + gateway.dotted()
                + ": "@ + detail@,
            NatpmpError::NoResponse { gateway } => "no response from gateway "@ + gateway.dotted()
                + " — VPN not connected or "@ + gateway.dotted() + " is not the NAT-PMP server"@,
            NatpmpError::Refused { public_port, lifetime } =>
                "NAT-PMP: gateway refused mapping (public_port="@ + text::decimal(
                public_port as nat,
            ) + ", lifetime="@ + text::decimal(lifetime as nat) + ")"@,
        }
    }

    /// Renders the message for this error.
    pub fn message(&self) -> (message: String)
        ensures
            message@ == self.text(),
    {
        match self {
            NatpmpError::ResponseTooShort { got } => {
                let mut m = "response too short: ".to_owned();
                m.append(text::decimal_text(*got as u64).as_str());
                m.append(" bytes");
                m
            },
            NatpmpError::UnsupportedVersion { version } => {
                let mut m = "unsupported NAT-PMP version ".to_owned();
                m.append(text::decimal_text(*version as u64).as_str());
                m
            },
            NatpmpError::UnexpectedOpcode { opcode, expected } => {
                let mut m = "unexpected opcode ".to_owned();
                m.append(text::decimal_text(*opcode as u64).as_str());
                m.append(" (expected ");
                m.append(text::decimal_text(*expected as u64).as_str());
                m.append(")");
                m
            },
            NatpmpError::Server { code } => {
                let mut m = "NAT-PMP server error: ".to_owned();
                m.append(natpmp_strerror(*code));
                m
            },
            NatpmpError::Truncated { got, need } => {
                let mut m = "NAT-PMP response truncated: got ".to_owned();
                m.append(text::decimal_text(*got as u64).as_str());
                m.append(" bytes, need ");
                m.append(text::decimal_text(*need as u64).as_str());
                m
            },
            NatpmpError::NotNatpmpServer { gateway } => {
                let mut m = gateway.to_text();
                m.append(
                    " is not a NAT-PMP server or the VPN is not connected — verify that --gateway is set to the correct address",
                );
                m
            },
            NatpmpError::Recv { gateway, detail } => {
                let mut m = "recv from gateway ".to_owned();
                m.append(gateway.to_text().as_str());
                m.append(": ");
                m.append(detail.as_str());
                m
            },
            NatpmpError::NoResponse { gateway } => {
                let mut m = "no response from gateway ".to_owned();
                m.append(gateway.to_text().as_str());
                m.append(" — VPN not connected or ");
                m.append(gateway.to_text().as_str());
                m.append(" is not the NAT-PMP server");
                m
            },
            NatpmpError::Refused { public_port, lifetime } => {
                let mut m = "NAT-PMP: gateway refused mapping (public_port=".to_owned();
                m.append(text::decimal_text(*public_port as u64).as_str());
                m.append(", lifetime=");
                m.append(text::decimal_text(*lifetime as u64).as_str());
                m.append(")");
                m
            },
        }
    }
}

// ---------------------------------------------------------------------------
// Big-endian numbers
// ---------------------------------------------------------------------------

/// The 16-bit number with the given bytes, high byte first.
pub open spec fn be16(hi: u8, lo: u8) -> u16 {
    (256 * hi + lo) as u16
}

/// The 32-bit number with the given bytes, highest byte first.
pub open spec fn be32(b3: u8, b2: u8, b1: u8, b0: u8) -> u32 {
    (0x1000000 * b3 + 0x10000 * b2 + 0x100 * b1 + b0) as u32
}

/// The bytes of a 16-bit number, high byte first.
pub open spec fn be16_bytes(n: u16) -> Seq<u8> {
    seq![(n / 256) as u8, (n % 256) as u8]
}

/// The bytes of a 32-bit number, highest byte first.
pub open spec fn be32_bytes(n: u32) -> Seq<u8> {
    seq![
        (n / 0x1000000) as u8,
        (n / 0x10000 % 256) as u8,
        (n / 0x100 % 256) as u8,
        (n % 256) as u8,
    ]
}

fn read_be16(hi: u8, lo: u8) -> (n: u16)
    ensures
        n == be16(hi, lo),
{
    hi as u16 * 256 + lo as u16
}

fn read_be32(b3: u8, b2: u8, b1: u8, b0: u8) -> (n: u32)
    ensures
        n == be32(b3, b2, b1, b0),
{
    b3 as u32 * 0x1000000 + b2 as u32 * 0x10000 + b1 as u32 * 0x100 + b0 as u32
}

/// A 16-bit number is the one that its bytes denote.
pub proof fn lemma_be16_round_trip(n: u16)
    ensures
        be16(be16_bytes(n)[0], be16_bytes(n)[1]) == n,
{
}

/// A 32-bit number is the one that its bytes denote.
pub proof fn lemma_be32_round_trip(n: u32)
    ensures
        be32(be32_bytes(n)[0], be32_bytes(n)[1], be32_bytes(n)[2], be32_bytes(n)[3]) == n,
{
}

// ---------------------------------------------------------------------------
// Requests
// ---------------------------------------------------------------------------

/// The bytes of a public-address request.
pub open spec fn public_address_request_bytes() -> Seq<u8> {
    seq![0u8, 0u8]
}

/// The bytes of a mapping request.  The suggested public port is 0, which
/// leaves the choice to the gateway.
pub open spec fn map_request_bytes(private_port: u16, protocol: Protocol, lifetime: u32) -> Seq<
    u8,
> {
    seq![0u8, protocol.request_op(), 0u8, 0u8] + be16_bytes(private_port) + seq![0u8, 0u8]
        + be32_bytes(lifetime)
}

/// Builds a public-address request.
pub fn public_address_request() -> (request: Vec<u8>)
    ensures
        request@ == public_address_request_bytes(),
{
    vec![0u8, 0u8]
}

/// Builds a mapping request.
pub fn map_request(private_port: u16, protocol: Protocol, lifetime: u32) -> (request: Vec<u8>)
    ensures
        request@ == map_request_bytes(private_port, protocol, lifetime),
{
    let (op, _) = protocol.opcodes();
    let request: Vec<u8> = vec![
        0u8,
        op,
        0u8,
        0u8,
        (private_port / 256) as u8,
        (private_port % 256) as u8,
        0u8,
        0u8,
        (lifetime / 0x1000000) as u8,
        (lifetime / 0x10000 % 256) as u8,
        (lifetime / 0x100 % 256) as u8,
        (lifetime % 256) as u8,
    ];
    assert(request@ == map_request_bytes(private_port, protocol, lifetime));
    request
}

/// A mapping request carries the private port in bytes 4 and 5, no suggestion
/// for the public port in bytes 6 and 7, and the lifetime in bytes 8 to 11,
/// all big-endian.
pub proof fn law_map_request_carries_its_fields(
    private_port: u16,
    protocol: Protocol,
    lifetime: u32,
)
    ensures
        ({
            let r = map_request_bytes(private_port, protocol, lifetime);
            &&& r.len() == 12
            &&& r[0] == 0
            &&& r[1] == protocol.request_op()
            &&& be16(r[2], r[3]) == 0
            &&& be16(r[4], r[5]) == private_port
            &&& be16(r[6], r[7]) == 0
            &&& be32(r[8], r[9], r[10], r[11]) == lifetime
        }),
{
    lemma_be16_round_trip(private_port);
    lemma_be32_round_trip(lifetime);
}

/// Different mappings are requested with different datagrams.
pub proof fn law_map_requests_are_distinct(
    port1: u16,
    protocol1: Protocol,
    lifetime1: u32,
    port2: u16,
    protocol2: Protocol,
    lifetime2: u32,
)
    requires
        map_request_bytes(port1, protocol1, lifetime1) == map_request_bytes(
            port2,
            protocol2,
            lifetime2,
        ),
    ensures
        port1 == port2,
        protocol1 == protocol2,
        lifetime1 == lifetime2,
{
    law_map_request_carries_its_fields(port1, protocol1, lifetime1);
    law_map_request_carries_its_fields(port2, protocol2, lifetime2);
}

// ---------------------------------------------------------------------------
// Responses
// ---------------------------------------------------------------------------

/// The number of bytes that a successful response must have.
pub open spec fn response_len(opcode: u8) -> nat {
    if opcode == OP_PUBLIC_ADDRESS {
        12
    } else {
        16
    }
}

/// What is wrong with a response to a request that expects `expected`, if
/// anything is.
pub open spec fn response_fault(data: Seq<u8>, expected: u8) -> Option<NatpmpError> {
    if data.len() < 4 {
        Some(NatpmpError::ResponseTooShort { got: data.len() as usize })
    } else if data[0] != 0 {
        Some(NatpmpError::UnsupportedVersion { version: data[0] })
    } else if data[1] != expected {
        Some(NatpmpError::UnexpectedOpcode { opcode: data[1], expected })
    } else if be16(data[2], data[3]) != 0 {
        Some(NatpmpError::Server { code: be16(data[2], data[3]) })
    } else if data.len() < response_len(expected) {
        Some(
            NatpmpError::Truncated {
                got: data.len() as usize,
                need: response_len(expected) as usize,
            },
        )
    } else {
        None
    }
}

/// A 16-byte buffer after `data` was received into its front.
pub open spec fn received(buf: Seq<u8>, data: Seq<u8>) -> Seq<u8> {
    Seq::new(
        16,
        |i: int|
            if i < data.len() {
                data[i]
            } else {
                buf[i]
            },
    )
}

/// A buffer of sixteen zero bytes.
pub open spec fn blank() -> Seq<u8> {
    Seq::new(16, |i: int| 0u8)
}

/// Copies the first sixteen bytes of `data` over the front of `buf`.
pub(crate) fn receive_into(buf: [u8; 16], data: &[u8]) -> (r: [u8; 16])
    ensures
        r@ == received(buf@, data@),
{
    let mut r: [u8; 16] = buf;
    let mut i: usize = 0;
    while i < 16 && i < data.len()
        invariant
            i <= 16,
            i <= data@.len(),
            forall|k: int| 0 <= k < i ==> r@[k] == data@[k],
            forall|k: int| i <= k < 16 ==> r@[k] == buf@[k],
        decreases 16 - i,
    {
        r[i] = data[i];
        i += 1;
    }
    assert(r@ == received(buf@, data@));
    r
}

/// Checks one candidate response to a request that expects `expected_opcode`.
///
/// A response to some other request is an error here: this function sees one
/// candidate only, and cannot wait for the next.
pub fn validate_response_bytes(data: &[u8], expected_opcode: u8) -> (r: Result<
    [u8; 16],
    NatpmpError,
>)
    ensures
        match r {
            Ok(buf) => response_fault(data@, expected_opcode) is None && buf@ == received(
                blank(),
                data@,
            ),
            Err(e) => response_fault(data@, expected_opcode) == Some(e),
        },
{
    let n: usize = data.len();
    let need: usize = if expected_opcode == OP_PUBLIC_ADDRESS {
        12
    } else {
        16
    };
    if n < 4 {
        return Err(NatpmpError::ResponseTooShort { got: n });
    }
    if data[0] != 0 {
        return Err(NatpmpError::UnsupportedVersion { version: data[0] });
    }
    if data[1] != expected_opcode {
        return Err(NatpmpError::UnexpectedOpcode { opcode: data[1], expected: expected_opcode });
    }
    let code: u16 = read_be16(data[2], data[3]);
    if code != 0 {
        return Err(NatpmpError::Server { code });
    }
    if n < need {
        return Err(NatpmpError::Truncated { got: n, need });
    }
    let zeros: [u8; 16] = [0u8; 16];
    assert(zeros@ == blank());
    Ok(receive_into(zeros, data))
}

/// The address in a public-address response.
pub open spec fn address_in(reply: Seq<u8>) -> Ipv4Addr {
    Ipv4Addr { a: reply[8], b: reply[9], c: reply[10], d: reply[11] }
}

/// The mapping in a port-mapping response.
pub open spec fn mapping_in(reply: Seq<u8>) -> PortMapping {
    PortMapping {
        private_port: be16(reply[8], reply[9]),
        public_port: be16(reply[10], reply[11]),
        lifetime: be32(reply[12], reply[13], reply[14], reply[15]),
    }
}

/// Whether a mapping is really a refusal.
pub open spec fn refusal(m: PortMapping) -> bool {
    m.public_port == 0 || m.lifetime == 0
}

/// Reads the address out of an accepted public-address response.
pub fn public_address(reply: &[u8; 16]) -> (addr: Ipv4Addr)
    ensures
        addr == address_in(reply@),
{
    Ipv4Addr::new(reply[8], reply[9], reply[10], reply[11])
}

/// Reads the mapping out of an accepted port-mapping response.  One without a
/// public port or without a lifetime is a refusal.
pub fn port_mapping(reply: &[u8; 16]) -> (r: Result<PortMapping, NatpmpError>)
    ensures
        r is Ok <==> (reply@[10] != 0 || reply@[11] != 0) && (reply@[12] != 0 || reply@[13] != 0
            || reply@[14] != 0 || reply@[15] != 0),
        match r {
            Ok(m) => m == mapping_in(reply@) && !refusal(m),
            Err(e) => refusal(mapping_in(reply@)) && e == (NatpmpError::Refused {
                public_port: mapping_in(reply@).public_port,
                lifetime: mapping_in(reply@).lifetime,
            }),
        },
{
    let mapping = PortMapping {
        private_port: read_be16(reply[8], reply[9]),
        public_port: read_be16(reply[10], reply[11]),
        lifetime: read_be32(reply[12], reply[13], reply[14], reply[15]),
    };
    if mapping.public_port == 0 || mapping.lifetime == 0 {
        return Err(
            NatpmpError::Refused { public_port: mapping.public_port, lifetime: mapping.lifetime },
        );
    }
    Ok(mapping)
}

// ---------------------------------------------------------------------------
// Client
// ---------------------------------------------------------------------------

/// An exchange that asks for the gateway's public address.
pub open spec fn address_exchange(gateway: Ipv4Addr) -> crate::transaction::Progress {
    crate::transaction::started(gateway, public_address_request_bytes(), OP_PUBLIC_ADDRESS)
}

/// An exchange that asks for a port mapping.
pub open spec fn map_exchange(
    gateway: Ipv4Addr,
    private_port: u16,
    protocol: Protocol,
    lifetime: u32,
) -> crate::transaction::Progress {
    crate::transaction::started(
        gateway,
        map_request_bytes(private_port, protocol, lifetime),
        protocol.response_op(),
    )
}

/// A client of one gateway.  It says what to send and makes sense of what
/// arrives; its owner holds the socket.
#[derive(Debug, PartialEq, Eq)]
pub struct NatpmpClient {
    pub gateway: Ipv4Addr,
    pub port: u16,
    pub interface: Option<String>,
}

impl NatpmpClient {
    /// A client of the NAT-PMP service on `gateway`, reached through
    /// `interface` if one is given.
    pub fn new(gateway: Ipv4Addr, interface: Option<&str>) -> (client: Self)
        ensures
            client.gateway == gateway,
            client.port == NATPMP_PORT,
            client.interface is Some <==> interface is Some,
            interface matches Some(name) ==> client.interface->0@ == name@,
    {
        Self::new_with_port(gateway, NATPMP_PORT, interface)
    }

    /// A client of a NAT-PMP service on a port other than the standard one.
    pub fn new_with_port(gateway: Ipv4Addr, port: u16, interface: Option<&str>) -> (client: Self)
        ensures
            client.gateway == gateway,
            client.port == port,
            client.interface is Some <==> interface is Some,
            interface matches Some(name) ==> client.interface->0@ == name@,
    {
        let interface: Option<String> = match interface {
            Some(name) => Some(name.to_owned()),
            None => None,
        };
        NatpmpClient { gateway, port, interface }
    }

    /// Starts an exchange that sends `request` and expects `expected_opcode`.
    pub fn transact(&self, request: Vec<u8>, expected_opcode: u8) -> (t: Transaction)
        ensures
            t@ == crate::transaction::started(self.gateway, request@, expected_opcode),
    {
        Transaction::new(self.gateway, request, expected_opcode)
    }

    /// Starts an exchange that asks for the gateway's public address.  Its
    /// reply is read with [`public_address`].
    pub fn get_public_address(&self) -> (t: Transaction)
        ensures
            t@ == crate::transaction::started(
                self.gateway,
                public_address_request_bytes(),
                OP_PUBLIC_ADDRESS,
            ),
            t@ == address_exchange(self.gateway),
    {
        self.transact(public_address_request(), OP_PUBLIC_ADDRESS)
    }

    /// Starts an exchange that asks for a port mapping.  Its reply is read
    /// with [`port_mapping`].
    pub fn map_port(&self, private_port: u16, protocol: Protocol, lifetime: u32) -> (t: Transaction)
        ensures
            t@ == crate::transaction::started(
                self.gateway,
                map_request_bytes(private_port, protocol, lifetime),
                protocol.response_op(),
            ),
            t@ == map_exchange(self.gateway, private_port, protocol, lifetime),
    {
        let (_, response_op) = protocol.opcodes();
        self.transact(map_request(private_port, protocol, lifetime), response_op)
    }
}

// ---------------------------------------------------------------------------
// Laws
// ---------------------------------------------------------------------------

/// Numbers are big-endian: the first byte counts most.
pub proof fn law_numbers_are_big_endian(n: u16, m: u32, b3: u8, b2: u8, b1: u8, b0: u8)
    ensures
        be16(b1, b0) == 256 * b1 + b0,
        be32(b3, b2, b1, b0) == 16777216 * b3 + 65536 * b2 + 256 * b1 + b0,
        be16_bytes(n).len() == 2,
        n == 256 * be16_bytes(n)[0] + be16_bytes(n)[1],
        be32_bytes(m).len() == 4,
        m == 16777216 * be32_bytes(m)[0] + 65536 * be32_bytes(m)[1] + 256 * be32_bytes(m)[2]
            + be32_bytes(m)[3],
{
}

/// A request for the public address is two zero bytes.  A request for a mapping
/// is twelve bytes: the version 0, the opcode 1 for UDP and 2 for TCP, two zero
/// bytes, the private port, two zero bytes and the lifetime.
pub proof fn law_requests_are_laid_out(private_port: u16, protocol: Protocol, lifetime: u32)
    ensures
        public_address_request_bytes() == seq![0u8, 0u8],
        ({
            let r = map_request_bytes(private_port, protocol, lifetime);
            &&& r.len() == 12
            &&& r[0] == 0 && r[2] == 0 && r[3] == 0 && r[6] == 0 && r[7] == 0
            &&& protocol == Protocol::Udp ==> r[1] == 1
            &&& protocol == Protocol::Tcp ==> r[1] == 2
            &&& private_port == 256 * r[4] + r[5]
            &&& lifetime == 16777216 * r[8] + 65536 * r[9] + 256 * r[10] + r[11]
        }),
{
    law_numbers_are_big_endian(private_port, lifetime, 0, 0, 0, 0);
}

/// A response to a UDP mapping has the opcode 129, one to a TCP mapping 130.
pub proof fn law_response_opcodes()
    ensures
        Protocol::Udp.response_op() == 129,
        Protocol::Tcp.response_op() == 130,
        OP_PUBLIC_ADDRESS == 128,
        NATPMP_PORT == 5351,
{
}

/// A response is accepted exactly if it has the version 0, the opcode that is
/// expected, the result code 0, and all of its fields: twelve bytes for a public
/// address, sixteen for anything else.
pub proof fn law_accepted_responses(data: Seq<u8>, expected: u8)
    ensures
        response_fault(data, expected) is None <==> {
            &&& data.len() >= 16 || (expected == 128 && data.len() >= 12)
            &&& data[0] == 0
            &&& data[1] == expected
            &&& data[2] == 0
            &&& data[3] == 0
        },
{
}

/// A response that is not accepted is refused for the first thing that is wrong
/// with it: its header, its version, its opcode, its result code, its length.
/// The error says what was found there.
pub proof fn law_refused_responses(data: Seq<u8>, expected: u8)
    requires
        data.len() <= usize::MAX,
    ensures
        match response_fault(data, expected) {
            None => data.len() >= 4,
            Some(NatpmpError::ResponseTooShort { got }) => data.len() < 4 && got == data.len(),
            Some(NatpmpError::UnsupportedVersion { version }) => data.len() >= 4 && version
                == data[0] && version != 0,
            Some(NatpmpError::UnexpectedOpcode { opcode, expected: wanted }) => data.len() >= 4
                && data[0] == 0 && opcode == data[1] && wanted == expected && opcode != expected,
            Some(NatpmpError::Server { code }) => data.len() >= 4 && data[0] == 0 && data[1]
                == expected && code == 256 * data[2] + data[3] && code != 0,
            Some(NatpmpError::Truncated { got, need }) => data.len() >= 4 && data[0] == 0 && data[1]
                == expected && data[2] == 0 && data[3] == 0 && got == data.len() && got < need
                && need == (if expected == 128 {
                12int
            } else {
                16
            }),
            Some(_) => false,
        },
{
}

/// What is received replaces the front of the buffer, and nothing else of it.
/// A new buffer holds zeros.
pub proof fn law_received_bytes_are_kept(buf: Seq<u8>, data: Seq<u8>)
    ensures
        received(buf, data).len() == 16,
        forall|i: int|
            0 <= i < 16 && i < data.len() ==> #[trigger] received(buf, data)[i] == data[i],
        forall|i: int|
            data.len() <= i < 16 ==> #[trigger] received(buf, data)[i] == buf[i],
        blank().len() == 16,
        forall|i: int| 0 <= i < 16 ==> #[trigger] blank()[i] == 0,
{
}

/// The address and the mapping in a reply stand in its bytes 8 to 11 and 8 to
/// 15.
pub proof fn law_fields_of_a_reply(reply: Seq<u8>)
    ensures
        address_in(reply) == (Ipv4Addr { a: reply[8], b: reply[9], c: reply[10], d: reply[11] }),
        mapping_in(reply).private_port == 256 * reply[8] + reply[9],
        mapping_in(reply).public_port == 256 * reply[10] + reply[11],
        mapping_in(reply).lifetime == 16777216 * reply[12] + 65536 * reply[13] + 256 * reply[14]
            + reply[15],
{
    law_numbers_are_big_endian(0, 0, reply[12], reply[13], reply[14], reply[15]);
}

/// A mapping is granted only with a public port and a lifetime: a reply with a
/// public port of 0, or a lifetime of 0, or both, is a refusal, and no other
/// reply is one.
pub proof fn law_granted_mappings_are_usable(reply: Seq<u8>, m: PortMapping)
    ensures
        !refusal(m) <==> m.public_port > 0 && m.lifetime > 0,
        !refusal(mapping_in(reply)) <==> (reply[10] != 0 || reply[11] != 0) && (reply[12] != 0
            || reply[13] != 0 || reply[14] != 0 || reply[15] != 0),
{
    law_fields_of_a_reply(reply);
}

/// The words for a result code: five codes have words of their own.
pub proof fn law_words_for_result_codes(code: u16)
    ensures
        strerror(1) == "unsupported version"@,
        strerror(2) == "not authorized"@,
        strerror(3) == "network failure"@,
        strerror(4) == "out of resources"@,
        strerror(5) == "unsupported opcode"@,
        code == 0 || code > 5 ==> strerror(code) == "unknown error"@,
{
}

/// A receive timed out exactly if it would have blocked or the system says so.
/// Nothing listens on the port exactly if the connection was refused or reset.
pub proof fn law_kinds_of_failed_receives(kind: ErrorKind)
    ensures
        timed_out(kind) <==> kind is WouldBlock || kind is TimedOut,
        unreachable_port(kind) <==> kind is ConnectionRefused || kind is ConnectionReset,
{
}

/// The messages say what was found, in decimal numbers and dotted addresses.
pub proof fn law_messages_say_what_was_found(e: NatpmpError)
    ensures
        e matches NatpmpError::ResponseTooShort { got } ==> e.text() == "response too short: "@
            + text::decimal(got as nat) + " bytes"@,
        e matches NatpmpError::UnsupportedVersion { version } ==> e.text()
            == "unsupported NAT-PMP version "@ + text::decimal(version as nat),
        e matches NatpmpError::UnexpectedOpcode { opcode, expected } ==> e.text()
            == "unexpected opcode "@ + text::decimal(opcode as nat) + " (expected "@
            + text::decimal(expected as nat) + ")"@,
        e matches NatpmpError::Server { code } ==> e.text() == "NAT-PMP server error: "@ + strerror(
            code,
        ),
        e matches NatpmpError::Truncated { got, need } ==> e.text()
            == "NAT-PMP response truncated: got "@ + text::decimal(got as nat) + " bytes, need "@
            + text::decimal(need as nat),
        e matches NatpmpError::Refused { public_port, lifetime } ==> e.text()
            == "NAT-PMP: gateway refused mapping (public_port="@ + text::decimal(
            public_port as nat,
        ) + ", lifetime="@ + text::decimal(lifetime as nat) + ")"@,
{
}

/// The messages name the gateway that did not answer.
pub proof fn law_messages_name_the_gateway(e: NatpmpError)
    ensures
        e matches NatpmpError::NotNatpmpServer { gateway } ==> e.text() == gateway.dotted()
            + " is not a NAT-PMP server or the VPN is not connected — verify that --gateway is set to the correct address"@,
        e matches NatpmpError::Recv { gateway, detail } ==> e.text() == "recv from gateway "@
            + gateway.dotted() + ": "@ + detail@,
        e matches NatpmpError::NoResponse { gateway } ==> e.text() == "no response from gateway "@
            + gateway.dotted() + " — VPN not connected or "@ + gateway.dotted()
            + " is not the NAT-PMP server"@,
{
}

/// A client asks its own gateway: for the address with two zero bytes, expecting
/// the opcode 128; for a mapping with the port, the protocol and the lifetime
/// that it was given, expecting the opcode 129 for UDP and 130 for TCP.
pub proof fn law_exchanges_ask_for_what_is_wanted(
    gateway: Ipv4Addr,
    private_port: u16,
    protocol: Protocol,
    lifetime: u32,
)
    ensures
        ({
            let p = address_exchange(gateway);
            &&& p.gateway == gateway
            &&& p.request == seq![0u8, 0u8]
            &&& p.expected_opcode == 128
            &&& p.attempt == 0
        }),
        ({
            let p = map_exchange(gateway, private_port, protocol, lifetime);
            let r = p.request;
            &&& p.gateway == gateway
            &&& p.attempt == 0
            &&& r.len() == 12
            &&& protocol is Udp ==> r[1] == 1 && p.expected_opcode == 129
            &&& protocol is Tcp ==> r[1] == 2 && p.expected_opcode == 130
            &&& 256 * r[4] + r[5] == private_port
            &&& 256 * r[6] + r[7] == 0
            &&& 16777216 * r[8] + 65536 * r[9] + 256 * r[10] + r[11] == lifetime
        }),
{
    law_requests_are_laid_out(private_port, protocol, lifetime);
}

} // verus!
