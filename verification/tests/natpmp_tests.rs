//! The NAT-PMP client against a scripted gateway.
//!
//! Public-address response (12 bytes): version 0, opcode 128, result code,
//! epoch, external IPv4 address.  Port-mapping response (16 bytes): version 0,
//! opcode 129 (UDP) or 130 (TCP), result code, epoch, private port, public
//! port, lifetime.

use natpmp::natpmp::{
    is_timeout, natpmp_strerror, port_mapping, public_address, ErrorKind, NatpmpError, RecvError,
};
use natpmp::transaction::{RecvEvent, Step, Transaction};
use natpmp::{validate_response_bytes, Ipv4Addr, NatpmpClient, PortMapping, Protocol};

const LOCALHOST: Ipv4Addr = Ipv4Addr { a: 127, b: 0, c: 0, d: 1 };
const UNSPECIFIED: Ipv4Addr = Ipv4Addr { a: 0, b: 0, c: 0, d: 0 };

/// What an exchange came to, and every datagram that it sent.
struct Exchange {
    reply: Result<[u8; 16], NatpmpError>,
    sent: Vec<Vec<u8>>,
    timeouts: Vec<u64>,
}

fn failure(kind: ErrorKind) -> RecvEvent {
    RecvEvent::Failure(RecvError { kind, detail: "detail".to_owned() })
}

fn silence() -> RecvEvent {
    failure(ErrorKind::WouldBlock)
}

/// Runs an exchange in which the socket gives `events`, then nothing more.
fn drive(start: Transaction, events: Vec<RecvEvent>) -> Exchange {
    let mut sent = vec![start.request().to_vec()];
    let mut timeouts = vec![start.timeout_ms()];
    let mut t = start;
    let mut events = events.into_iter();
    loop {
        let event = events.next().unwrap_or_else(silence);
        match t.step(event) {
            Step::Wait(next) => t = next,
            Step::Retransmit(next) => {
                sent.push(next.request().to_vec());
                timeouts.push(next.timeout_ms());
                t = next;
            }
            Step::Done(reply) => return Exchange { reply, sent, timeouts },
        }
    }
}

fn datagrams(responses: Vec<Vec<u8>>) -> Vec<RecvEvent> {
    responses.into_iter().map(RecvEvent::Datagram).collect()
}

fn get_public_address(client: &NatpmpClient, events: Vec<RecvEvent>) -> Result<Ipv4Addr, NatpmpError> {
    drive(client.get_public_address(), events).reply.map(|r| public_address(&r))
}

fn map_port(
    client: &NatpmpClient,
    private_port: u16,
    protocol: Protocol,
    lifetime: u32,
    events: Vec<RecvEvent>,
) -> Result<PortMapping, NatpmpError> {
    let reply = drive(client.map_port(private_port, protocol, lifetime), events).reply?;
    port_mapping(&reply)
}

fn build_addr_response(result: u16, ip: Ipv4Addr) -> Vec<u8> {
    let mut pkt = vec![0u8; 12];
    pkt[0] = 0;
    pkt[1] = 128;
    pkt[2..4].copy_from_slice(&result.to_be_bytes());
    pkt[4..8].copy_from_slice(&42u32.to_be_bytes());
    pkt[8..12].copy_from_slice(&ip.octets());
    pkt
}

fn build_map_response(
    opcode: u8,
    result: u16,
    private_port: u16,
    public_port: u16,
    lifetime: u32,
) -> Vec<u8> {
    let mut pkt = vec![0u8; 16];
    pkt[0] = 0;
    pkt[1] = opcode;
    pkt[2..4].copy_from_slice(&result.to_be_bytes());
    pkt[4..8].copy_from_slice(&42u32.to_be_bytes());
    pkt[8..10].copy_from_slice(&private_port.to_be_bytes());
    pkt[10..12].copy_from_slice(&public_port.to_be_bytes());
    pkt[12..16].copy_from_slice(&lifetime.to_be_bytes());
    pkt
}

fn test_client() -> NatpmpClient {
    NatpmpClient::new_with_port(LOCALHOST, 40000, None)
}

// ---------------------------------------------------------------------------
// Error kinds and result codes
// ---------------------------------------------------------------------------

fn recv_error(kind: ErrorKind) -> RecvError {
    RecvError { kind, detail: String::new() }
}

#[test]
fn is_timeout_recognises_blocking_errors() {
    assert!(is_timeout(&recv_error(ErrorKind::WouldBlock)));
    assert!(is_timeout(&recv_error(ErrorKind::TimedOut)));
}

#[test]
fn is_timeout_rejects_non_blocking_errors() {
    assert!(!is_timeout(&recv_error(ErrorKind::ConnectionRefused)));
    assert!(!is_timeout(&recv_error(ErrorKind::BrokenPipe)));
    assert!(!is_timeout(&recv_error(ErrorKind::ConnectionReset)));
    assert!(!is_timeout(&recv_error(ErrorKind::Other)));
}

#[test]
fn natpmp_strerror_maps_all_rfc_codes() {
    assert_eq!(natpmp_strerror(1), "unsupported version");
    assert_eq!(natpmp_strerror(2), "not authorized");
    assert_eq!(natpmp_strerror(3), "network failure");
    assert_eq!(natpmp_strerror(4), "out of resources");
    assert_eq!(natpmp_strerror(5), "unsupported opcode");
}

#[test]
fn natpmp_strerror_unknown_code_is_non_empty() {
    let msg = natpmp_strerror(6);
    assert!(!msg.is_empty(), "unknown code must still produce a message");
    assert_ne!(msg, "unsupported version");
    assert_ne!(msg, "not authorized");
}

// ---------------------------------------------------------------------------
// Happy paths
// ---------------------------------------------------------------------------

#[test]
fn test_get_public_address_happy() {
    let expected_ip = Ipv4Addr::new(203, 0, 113, 7);
    let events = datagrams(vec![build_addr_response(0, expected_ip)]);
    let ip = get_public_address(&test_client(), events).expect("get_public_address");
    assert_eq!(ip, expected_ip);
}

#[test]
fn test_map_port_udp_happy() {
    let events = datagrams(vec![build_map_response(129, 0, 4567, 8888, 3600)]);
    let mapping = map_port(&test_client(), 4567, Protocol::Udp, 3600, events).expect("map_port UDP");
    assert_eq!(mapping.private_port, 4567);
    assert_eq!(mapping.public_port, 8888);
    assert_eq!(mapping.lifetime, 3600);
}

#[test]
fn test_map_port_tcp_happy() {
    let events = datagrams(vec![build_map_response(130, 0, 9999, 7777, 1800)]);
    let mapping = map_port(&test_client(), 9999, Protocol::Tcp, 1800, events).expect("map_port TCP");
    assert_eq!(mapping.private_port, 9999);
    assert_eq!(mapping.public_port, 7777);
    assert_eq!(mapping.lifetime, 1800);
}

// ---------------------------------------------------------------------------
// Result codes
// ---------------------------------------------------------------------------

#[test]
fn test_error_code_1_unsupported_version() {
    let events = datagrams(vec![build_addr_response(1, UNSPECIFIED)]);
    assert!(get_public_address(&test_client(), events).is_err());
}

#[test]
fn test_error_code_2_not_authorized() {
    let events = datagrams(vec![build_map_response(129, 2, 0, 0, 0)]);
    assert!(map_port(&test_client(), 1234, Protocol::Udp, 60, events).is_err());
}

#[test]
fn test_error_code_3_network_failure() {
    let events = datagrams(vec![build_map_response(130, 3, 0, 0, 0)]);
    assert!(map_port(&test_client(), 1234, Protocol::Tcp, 60, events).is_err());
}

#[test]
fn test_error_code_4_out_of_resources() {
    let events = datagrams(vec![build_map_response(129, 4, 0, 0, 0)]);
    assert!(map_port(&test_client(), 1234, Protocol::Udp, 60, events).is_err());
}

#[test]
fn test_error_code_5_unsupported_opcode() {
    let events = datagrams(vec![build_addr_response(5, UNSPECIFIED)]);
    assert!(get_public_address(&test_client(), events).is_err());
}

#[test]
fn test_unknown_result_code() {
    let events = datagrams(vec![build_addr_response(99, UNSPECIFIED)]);
    assert!(
        get_public_address(&test_client(), events).is_err(),
        "unknown result code must be an error"
    );
}

#[test]
fn test_unknown_result_code_is_error() {
    let events = datagrams(vec![build_addr_response(6, UNSPECIFIED)]);
    assert!(get_public_address(&test_client(), events).is_err());
}

#[test]
fn prop_nonzero_result_code_always_errors() {
    for code in 1u16..=u16::MAX {
        let events = datagrams(vec![build_addr_response(code, UNSPECIFIED)]);
        assert_eq!(
            get_public_address(&test_client(), events),
            Err(NatpmpError::Server { code }),
            "result code {code} must produce Err"
        );
    }
}

// ---------------------------------------------------------------------------
// Stale, foreign and refused responses
// ---------------------------------------------------------------------------

#[test]
fn test_stale_opcode_discarded() {
    let wrong = build_map_response(129, 0, 1234, 5678, 3600);
    let correct = build_map_response(130, 0, 1234, 5678, 3600);
    let exchange = drive(
        test_client().map_port(1234, Protocol::Tcp, 3600),
        datagrams(vec![wrong, correct]),
    );
    assert_eq!(exchange.sent.len(), 1, "a stale response must not cause a retransmission");
    let reply = exchange.reply.expect("should succeed after discarding stale opcode");
    assert_eq!(port_mapping(&reply).unwrap().public_port, 5678);
}

#[test]
fn test_wrong_version_in_response() {
    let mut pkt = build_addr_response(0, Ipv4Addr::new(1, 2, 3, 4));
    pkt[0] = 1;
    let events = datagrams(vec![pkt.clone(); 9]);
    assert!(get_public_address(&test_client(), events).is_err());
}

#[test]
fn test_lifetime_zero_returns_error() {
    let events = datagrams(vec![build_map_response(129, 0, 1234, 5678, 0)]);
    assert!(map_port(&test_client(), 1234, Protocol::Udp, 60, events).is_err());
}

#[test]
fn test_public_port_zero_returns_error() {
    let events = datagrams(vec![build_map_response(129, 0, 1234, 0, 3600)]);
    assert!(map_port(&test_client(), 1234, Protocol::Udp, 60, events).is_err());
}

#[test]
fn test_private_port_echo() {
    let events = datagrams(vec![build_map_response(129, 0, 1234, 6000, 3600)]);
    let mapping = map_port(&test_client(), 1234, Protocol::Udp, 3600, events).expect("map_port");
    assert_eq!(mapping.private_port, 1234);
}

#[test]
fn test_zero_private_port_server_assigns() {
    let events = datagrams(vec![build_map_response(129, 0, 9000, 9000, 3600)]);
    let mapping =
        map_port(&test_client(), 0, Protocol::Udp, 3600, events).expect("map_port with port=0");
    assert_eq!(mapping.private_port, 9000);
}

// ---------------------------------------------------------------------------
// Retransmission
// ---------------------------------------------------------------------------

#[test]
fn test_retransmission_succeeds_after_initial_silence() {
    let expected_ip = Ipv4Addr::new(198, 51, 100, 42);
    let events = vec![
        silence(),
        silence(),
        silence(),
        RecvEvent::Datagram(build_addr_response(0, expected_ip)),
    ];
    let exchange = drive(test_client().get_public_address(), events);
    assert_eq!(exchange.sent.len(), 4);
    assert_eq!(exchange.timeouts, vec![250, 500, 1000, 2000]);
    let ip = public_address(&exchange.reply.expect("should succeed after retransmits"));
    assert_eq!(ip, expected_ip);
}

#[test]
fn test_too_short_response_triggers_retransmit() {
    let expected = Ipv4Addr::new(10, 0, 0, 1);
    let events = datagrams(vec![vec![0u8, 128u8, 0u8], build_addr_response(0, expected)]);
    let exchange = drive(test_client().get_public_address(), events);
    assert_eq!(exchange.sent.len(), 2);
    let ip = public_address(&exchange.reply.expect("should succeed after runt"));
    assert_eq!(ip, expected);
}

#[test]
fn test_connection_refused_bails_immediately_with_helpful_message() {
    let client = NatpmpClient::new_with_port(LOCALHOST, 40000, None);
    let exchange = drive(client.get_public_address(), vec![failure(ErrorKind::ConnectionRefused)]);
    assert_eq!(exchange.sent.len(), 1, "ConnectionRefused must not be retried");
    let result = exchange.reply;
    assert!(result.is_err(), "ConnectionRefused must produce Err");
    let msg = result.unwrap_err().message();
    assert!(
        msg.contains("not a NAT-PMP server") || msg.contains("VPN"),
        "expected helpful NAT-PMP / VPN message, got: {msg}"
    );
}

#[test]
fn test_no_response_returns_error() {
    let exchange = drive(test_client().map_port(1234, Protocol::Udp, 60), Vec::new());
    assert!(
        exchange.reply.is_err(),
        "expected Err after all retransmit attempts exhausted"
    );
    assert_eq!(exchange.reply, Err(NatpmpError::NoResponse { gateway: LOCALHOST }));
    assert_eq!(exchange.sent.len(), 9);
    assert_eq!(exchange.timeouts, vec![250, 500, 1000, 2000, 4000, 8000, 16000, 32000, 64000]);
    assert_eq!(exchange.timeouts.iter().sum::<u64>(), 127_750);
    assert!(exchange.sent.iter().all(|r| *r == exchange.sent[0]));
}

// ---------------------------------------------------------------------------
// Requests
// ---------------------------------------------------------------------------

#[test]
fn test_request_format_public_address() {
    let events = datagrams(vec![build_addr_response(0, Ipv4Addr::new(1, 2, 3, 4))]);
    let exchange = drive(test_client().get_public_address(), events);
    exchange.reply.expect("get_public_address");
    let req = &exchange.sent[0];
    assert_eq!(req.len(), 2, "public-address request must be 2 bytes");
    assert_eq!(req[0], 0, "version must be 0");
    assert_eq!(req[1], 0, "opcode must be 0");
}

#[test]
fn test_request_format_map_port_udp() {
    let events = datagrams(vec![build_map_response(129, 0, 1234, 5000, 60)]);
    let exchange = drive(test_client().map_port(1234, Protocol::Udp, 60), events);
    exchange.reply.expect("map_port");
    let req = &exchange.sent[0];
    assert_eq!(req.len(), 12, "mapping request must be 12 bytes");
    assert_eq!(req[0], 0, "version must be 0");
    assert_eq!(req[1], 1, "opcode must be 1 for UDP");
    assert_eq!(&req[2..4], &[0, 0], "reserved bytes must be 0");
    assert_eq!(u16::from_be_bytes([req[4], req[5]]), 1234, "private_port at bytes 4-5");
    assert_eq!(
        u16::from_be_bytes([req[6], req[7]]),
        0,
        "suggested public port must be 0 (let server assign)"
    );
    assert_eq!(
        u32::from_be_bytes([req[8], req[9], req[10], req[11]]),
        60,
        "lifetime at bytes 8-11"
    );
}

#[test]
fn test_request_format_map_port_tcp() {
    let events = datagrams(vec![build_map_response(130, 0, 4321, 5000, 120)]);
    let exchange = drive(test_client().map_port(4321, Protocol::Tcp, 120), events);
    exchange.reply.expect("map_port");
    let req = &exchange.sent[0];
    assert_eq!(req[1], 2, "opcode must be 2 for TCP");
    assert_eq!(u16::from_be_bytes([req[4], req[5]]), 4321, "private_port at bytes 4-5");
    assert_eq!(
        u32::from_be_bytes([req[8], req[9], req[10], req[11]]),
        120,
        "lifetime at bytes 8-11"
    );
}

#[test]
fn test_request_get_public_address_wire_format() {
    let events = datagrams(vec![build_addr_response(0, Ipv4Addr::new(1, 2, 3, 4))]);
    let exchange = drive(test_client().get_public_address(), events);
    exchange.reply.unwrap();
    let req = &exchange.sent[0];
    assert_eq!(req[0], 0, "version must be 0");
    assert_eq!(req[1], 0, "opcode must be 0 (public-address request)");
}

#[test]
fn test_request_map_port_udp_wire_format() {
    let events = datagrams(vec![build_map_response(129, 0, 1234, 5678, 60)]);
    let exchange = drive(test_client().map_port(1234, Protocol::Udp, 60), events);
    exchange.reply.unwrap();
    let req = &exchange.sent[0];
    assert!(req.len() >= 12, "request must be at least 12 bytes");
    assert_eq!(req[0], 0, "version must be 0");
    assert_eq!(req[1], 1, "opcode must be 1 (UDP map request)");
    assert_eq!(
        u16::from_be_bytes([req[4], req[5]]),
        1234,
        "private port big-endian in bytes 4–5"
    );
    assert_eq!(
        u16::from_be_bytes([req[6], req[7]]),
        0,
        "suggested public port must be 0 (let server assign)"
    );
    assert_eq!(
        u32::from_be_bytes([req[8], req[9], req[10], req[11]]),
        60,
        "lifetime big-endian in bytes 8–11"
    );
}

#[test]
fn test_request_map_port_tcp_wire_format() {
    let events = datagrams(vec![build_map_response(130, 0, 9999, 5678, 120)]);
    let exchange = drive(test_client().map_port(9999, Protocol::Tcp, 120), events);
    exchange.reply.unwrap();
    let req = &exchange.sent[0];
    assert_eq!(req[1], 2, "opcode must be 2 (TCP map request)");
    assert_eq!(
        u16::from_be_bytes([req[4], req[5]]),
        9999,
        "private port big-endian in bytes 4–5"
    );
    assert_eq!(
        u32::from_be_bytes([req[8], req[9], req[10], req[11]]),
        120,
        "lifetime big-endian in bytes 8–11"
    );
}

// ---------------------------------------------------------------------------
// Truncated responses
// ---------------------------------------------------------------------------

#[test]
fn test_truncated_addr_response() {
    let truncated = vec![0u8, 128, 0, 0, 0, 0, 0, 0];
    assert!(
        get_public_address(&test_client(), datagrams(vec![truncated])).is_err(),
        "truncated public-address response must be an error"
    );
}

#[test]
fn test_truncated_map_response() {
    let truncated = vec![0u8, 129, 0, 0, 0, 0, 0, 0, 0, 42, 0, 17];
    assert!(
        map_port(&test_client(), 42, Protocol::Udp, 60, datagrams(vec![truncated])).is_err(),
        "truncated mapping response must be an error"
    );
}

#[test]
fn test_truncated_response_returns_error() {
    let runt = vec![0u8, 128u8, 0u8, 0u8, 0u8, 0u8, 0u8, 42u8];
    let exchange = drive(test_client().get_public_address(), datagrams(vec![runt; 256]));
    assert!(exchange.reply.is_err(), "truncated response must produce an error");
    assert_eq!(exchange.sent.len(), 1);
}

// ---------------------------------------------------------------------------
// Sequential calls on the same client
// ---------------------------------------------------------------------------

#[test]
fn test_sequential_tcp_then_udp_on_same_client() {
    let tcp_resp = datagrams(vec![build_map_response(130, 0, 5000, 6000, 60)]);
    let udp_resp = datagrams(vec![build_map_response(129, 0, 5000, 6000, 60)]);
    let client = test_client();
    let tcp = map_port(&client, 0, Protocol::Tcp, 60, tcp_resp).expect("TCP map");
    let udp = map_port(&client, tcp.private_port, Protocol::Udp, 60, udp_resp).expect("UDP map");
    assert_eq!(tcp.public_port, 6000);
    assert_eq!(udp.public_port, 6000);
    assert_eq!(
        tcp.private_port, udp.private_port,
        "both mappings must share the same private port"
    );
}

#[test]
fn test_sequential_tcp_then_udp_mapping() {
    let tcp_pkt = datagrams(vec![build_map_response(130, 0, 12345, 54321, 60)]);
    let udp_pkt = datagrams(vec![build_map_response(129, 0, 12345, 54321, 60)]);
    let client = test_client();
    let tcp = map_port(&client, 0, Protocol::Tcp, 60, tcp_pkt).expect("TCP mapping");
    let udp = map_port(&client, tcp.private_port, Protocol::Udp, 60, udp_pkt).expect("UDP mapping");
    assert_eq!(tcp.private_port, udp.private_port);
    assert_eq!(tcp.public_port, udp.public_port);
}

// ---------------------------------------------------------------------------
// Fields, over their whole range
// ---------------------------------------------------------------------------

#[test]
fn prop_public_address_parsed_correctly() {
    for (a, b, c, d) in [(0, 0, 0, 0), (1, 2, 3, 4), (185, 159, 157, 9), (255, 255, 255, 255)] {
        let ip = Ipv4Addr::new(a, b, c, d);
        let events = datagrams(vec![build_addr_response(0, ip)]);
        assert_eq!(get_public_address(&test_client(), events).expect("Ok"), ip);
    }
}

#[test]
fn prop_private_port_round_trips() {
    for private_port in 1u16..=u16::MAX {
        let events = datagrams(vec![build_map_response(129, 0, private_port, 1234, 60)]);
        let m = map_port(&test_client(), private_port, Protocol::Udp, 60, events).expect("Ok");
        assert_eq!(m.private_port, private_port);
    }
}

#[test]
fn prop_public_port_round_trips() {
    for public_port in 1u16..=u16::MAX {
        let events = datagrams(vec![build_map_response(129, 0, 4000, public_port, 60)]);
        let m = map_port(&test_client(), 0, Protocol::Udp, 60, events).expect("Ok");
        assert_eq!(m.public_port, public_port);
    }
}

#[test]
fn prop_lifetime_round_trips() {
    for lifetime in [1u32, 60, 255, 256, 65_535, 65_536, 0x0102_0304, 0x8000_0000, u32::MAX] {
        let events = datagrams(vec![build_map_response(129, 0, 4000, 5000, lifetime)]);
        let m = map_port(&test_client(), 0, Protocol::Udp, 60, events).expect("Ok");
        assert_eq!(m.lifetime, lifetime);
    }
}

#[test]
fn prop_request_encodes_private_port() {
    for private_port in 0u16..=u16::MAX {
        let t = test_client().map_port(private_port, Protocol::Udp, 60);
        let req = t.request();
        assert_eq!(u16::from_be_bytes([req[4], req[5]]), private_port);
    }
}

#[test]
fn prop_request_encodes_lifetime() {
    for lifetime in [1u32, 60, 255, 256, 65_535, 65_536, 0x0102_0304, 0x8000_0000, u32::MAX] {
        let t = test_client().map_port(0, Protocol::Udp, lifetime);
        let req = t.request();
        assert_eq!(u32::from_be_bytes([req[8], req[9], req[10], req[11]]), lifetime);
    }
}

// ---------------------------------------------------------------------------
// Exact outcomes
// ---------------------------------------------------------------------------

#[test]
fn clients_remember_where_to_connect() {
    let gateway = Ipv4Addr::new(10, 2, 0, 1);
    let client = NatpmpClient::new(gateway, Some("proton0"));
    assert_eq!(client.gateway, gateway);
    assert_eq!(client.port, 5351);
    assert_eq!(client.interface.as_deref(), Some("proton0"));
    let client = NatpmpClient::new_with_port(gateway, 9, None);
    assert_eq!(client.port, 9);
    assert_eq!(client.interface, None);
}

#[test]
fn single_datagrams_are_checked() {
    let good = build_addr_response(0, Ipv4Addr::new(1, 2, 3, 4));
    let buf = validate_response_bytes(&good, 128).unwrap();
    assert_eq!(buf[..12], good[..]);
    assert_eq!(buf[12..], [0, 0, 0, 0]);
    assert_eq!(
        validate_response_bytes(&[0, 128, 0], 128),
        Err(NatpmpError::ResponseTooShort { got: 3 })
    );
    assert_eq!(
        validate_response_bytes(&[2, 128, 0, 0], 128),
        Err(NatpmpError::UnsupportedVersion { version: 2 })
    );
    assert_eq!(
        validate_response_bytes(&[0, 129, 0, 0], 128),
        Err(NatpmpError::UnexpectedOpcode { opcode: 129, expected: 128 })
    );
    assert_eq!(
        validate_response_bytes(&[0, 128, 1, 2], 128),
        Err(NatpmpError::Server { code: 258 })
    );
    assert_eq!(
        validate_response_bytes(&good[..11], 128),
        Err(NatpmpError::Truncated { got: 11, need: 12 })
    );
    let mut long = build_map_response(130, 0, 1, 2, 3);
    assert_eq!(
        validate_response_bytes(&long[..15], 130),
        Err(NatpmpError::Truncated { got: 15, need: 16 })
    );
    let buf = validate_response_bytes(&long, 130).unwrap();
    assert_eq!(buf[..], long[..]);
    long.extend_from_slice(&[9; 20]);
    assert_eq!(validate_response_bytes(&long, 130), Ok(buf));
}

#[test]
fn leftovers_of_a_stale_response_do_not_show() {
    let stale = build_map_response(129, 0, 7, 7, 0x0909_0909);
    let ip = Ipv4Addr::new(203, 0, 113, 9);
    let events = datagrams(vec![stale, build_addr_response(0, ip)]);
    let exchange = drive(test_client().get_public_address(), events);
    let reply = exchange.reply.unwrap();
    assert_eq!(public_address(&reply), ip);
    assert_eq!(reply[12..], [9, 9, 9, 9]);
}

#[test]
fn failed_receives_end_an_exchange() {
    let client = NatpmpClient::new(Ipv4Addr::new(10, 2, 0, 1), None);
    let gateway = client.gateway;
    for kind in [ErrorKind::ConnectionRefused, ErrorKind::ConnectionReset] {
        let exchange = drive(client.get_public_address(), vec![failure(kind)]);
        assert_eq!(exchange.reply, Err(NatpmpError::NotNatpmpServer { gateway }));
    }
    for kind in [ErrorKind::BrokenPipe, ErrorKind::Other] {
        let exchange = drive(client.get_public_address(), vec![failure(kind)]);
        assert_eq!(
            exchange.reply,
            Err(NatpmpError::Recv { gateway, detail: "detail".to_owned() })
        );
    }
    let exchange = drive(client.get_public_address(), vec![failure(ErrorKind::TimedOut)]);
    assert_eq!(exchange.reply, Err(NatpmpError::NoResponse { gateway }));
}

#[test]
fn stale_responses_and_timeouts_may_come_before_the_answer() {
    let stale = || RecvEvent::Datagram(build_map_response(130, 0, 1, 1, 1));
    let mut events = vec![stale()];
    for _ in 0..8 {
        events.push(silence());
        events.push(stale());
        events.push(stale());
    }
    events.push(RecvEvent::Datagram(build_map_response(129, 0, 80, 8080, 120)));
    let exchange = drive(test_client().map_port(80, Protocol::Udp, 120), events);
    assert_eq!(exchange.sent.len(), 9);
    assert_eq!(
        port_mapping(&exchange.reply.unwrap()),
        Ok(PortMapping { private_port: 80, public_port: 8080, lifetime: 120 })
    );
}

#[test]
fn nine_runts_are_given_up() {
    let exchange = drive(test_client().get_public_address(), datagrams(vec![vec![0]; 9]));
    assert_eq!(exchange.reply, Err(NatpmpError::NoResponse { gateway: LOCALHOST }));
    assert_eq!(exchange.sent.len(), 9);
}

#[test]
fn refused_mappings_say_what_was_refused() {
    let events = datagrams(vec![build_map_response(129, 0, 1234, 0, 3600)]);
    assert_eq!(
        map_port(&test_client(), 1234, Protocol::Udp, 60, events),
        Err(NatpmpError::Refused { public_port: 0, lifetime: 3600 })
    );
    let events = datagrams(vec![build_map_response(129, 0, 1234, 5678, 0)]);
    assert_eq!(
        map_port(&test_client(), 1234, Protocol::Udp, 60, events),
        Err(NatpmpError::Refused { public_port: 5678, lifetime: 0 })
    );
}

#[test]
fn errors_have_messages() {
    let gateway = Ipv4Addr::new(10, 2, 0, 1);
    let cases = [
        (NatpmpError::ResponseTooShort { got: 3 }, "response too short: 3 bytes"),
        (NatpmpError::UnsupportedVersion { version: 255 }, "unsupported NAT-PMP version 255"),
        (
            NatpmpError::UnexpectedOpcode { opcode: 129, expected: 130 },
            "unexpected opcode 129 (expected 130)",
        ),
        (NatpmpError::Server { code: 2 }, "NAT-PMP server error: not authorized"),
        (NatpmpError::Server { code: 777 }, "NAT-PMP server error: unknown error"),
        (
            NatpmpError::Truncated { got: 11, need: 12 },
            "NAT-PMP response truncated: got 11 bytes, need 12",
        ),
        (
            NatpmpError::NotNatpmpServer { gateway },
            "10.2.0.1 is not a NAT-PMP server or the VPN is not connected \
             — verify that --gateway is set to the correct address",
        ),
        (
            NatpmpError::Recv { gateway, detail: "broken pipe".to_owned() },
            "recv from gateway 10.2.0.1: broken pipe",
        ),
        (
            NatpmpError::NoResponse { gateway },
            "no response from gateway 10.2.0.1 — VPN not connected or 10.2.0.1 is not the NAT-PMP server",
        ),
        (
            NatpmpError::Refused { public_port: 0, lifetime: 60 },
            "NAT-PMP: gateway refused mapping (public_port=0, lifetime=60)",
        ),
    ];
    for (error, message) in cases {
        assert_eq!(error.message(), message);
    }
}
