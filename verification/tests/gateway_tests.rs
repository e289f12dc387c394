//! Default-gateway discovery on tables and messages of each system.

use natpmp::gateway::{
    gateway_from_rows, gateway_from_rtaddrs, sa_roundup, ForwardRow, GatewayError, RouteHeader,
    RouteQuery, RouteStep, AF_INET, RTA_DST, RTA_GATEWAY,
};
use natpmp::{parse_proc_net_route, Ipv4Addr};

const UNSPECIFIED: Ipv4Addr = Ipv4Addr { a: 0, b: 0, c: 0, d: 0 };

fn make_sockaddr_in(ip: Ipv4Addr) -> [u8; 16] {
    let mut b = [0u8; 16];
    b[0] = 16;
    b[1] = u8::try_from(libc::AF_INET).expect("AF_INET fits u8");
    b[4..8].copy_from_slice(&ip.octets());
    b
}

#[test]
fn gateway_only_returns_correct_ip() {
    let data = make_sockaddr_in(Ipv4Addr::new(10, 2, 0, 1));
    assert_eq!(gateway_from_rtaddrs(RTA_GATEWAY, &data).unwrap(), Ipv4Addr::new(10, 2, 0, 1));
}

#[test]
fn dst_before_gateway_advances_offset_correctly() {
    let mut data = [0u8; 32];
    data[..16].copy_from_slice(&make_sockaddr_in(UNSPECIFIED));
    data[16..].copy_from_slice(&make_sockaddr_in(Ipv4Addr::new(192, 168, 1, 1)));
    assert_eq!(
        gateway_from_rtaddrs(RTA_DST | RTA_GATEWAY, &data).unwrap(),
        Ipv4Addr::new(192, 168, 1, 1)
    );
}

#[test]
fn missing_gateway_bit_returns_err() {
    let data = make_sockaddr_in(UNSPECIFIED);
    let err = gateway_from_rtaddrs(RTA_DST, &data).unwrap_err();
    assert!(err.message().contains("no default route"));
}

#[test]
fn non_ipv4_gateway_returns_err() {
    let mut data = [0u8; 16];
    data[0] = 16;
    data[1] = u8::try_from(libc::AF_INET6).expect("AF_INET6 fits u8");
    let err = gateway_from_rtaddrs(RTA_GATEWAY, &data).unwrap_err();
    assert!(err.message().contains("not IPv4"));
}

#[test]
fn truncated_gateway_sockaddr_returns_err() {
    let mut data = [0u8; 16];
    data[0] = 4;
    data[1] = libc::AF_INET as u8;
    let err = gateway_from_rtaddrs(RTA_GATEWAY, &data).unwrap_err();
    assert!(err.message().contains("truncated"));
}

#[test]
fn sa_family_read_at_exact_boundary_returns_not_ipv4() {
    let data = [0u8; 1];
    let err = gateway_from_rtaddrs(RTA_GATEWAY, &data).unwrap_err();
    assert!(err.message().contains("not IPv4"));
}

#[test]
fn gateway_data_shorter_than_sa_len_returns_truncated() {
    let mut data = [0u8; 4];
    data[0] = 16;
    data[1] = libc::AF_INET as u8;
    let err = gateway_from_rtaddrs(RTA_GATEWAY, &data).unwrap_err();
    assert!(err.message().contains("truncated"));
}

#[test]
fn address_family_is_that_of_the_system() {
    assert_eq!(libc::AF_INET, i32::from(AF_INET));
}

#[test]
fn an_empty_destination_takes_one_word() {
    let word = std::mem::size_of::<isize>();
    let mut data = vec![0u8; word];
    data.extend_from_slice(&make_sockaddr_in(Ipv4Addr::new(10, 0, 0, 138)));
    assert_eq!(
        gateway_from_rtaddrs(RTA_DST | RTA_GATEWAY, &data),
        Ok(Ipv4Addr::new(10, 0, 0, 138))
    );
    let mut data = vec![5u8; word];
    data.extend_from_slice(&make_sockaddr_in(Ipv4Addr::new(10, 0, 0, 138)));
    let expected = if word == 8 {
        Ok(Ipv4Addr::new(10, 0, 0, 138))
    } else {
        Err(GatewayError::NotIpv4 { sa_family: 0 })
    };
    assert_eq!(gateway_from_rtaddrs(RTA_DST | RTA_GATEWAY, &data), expected);
}

#[test]
fn messages_that_end_early_have_no_gateway() {
    assert_eq!(gateway_from_rtaddrs(RTA_GATEWAY, &[]), Err(GatewayError::NoDefaultRoute));
    let data = make_sockaddr_in(UNSPECIFIED);
    assert_eq!(
        gateway_from_rtaddrs(RTA_DST | RTA_GATEWAY, &data),
        Err(GatewayError::NoDefaultRoute)
    );
    assert_eq!(
        gateway_from_rtaddrs(RTA_DST | RTA_GATEWAY, &[255, 2, 0]),
        Err(GatewayError::NoDefaultRoute)
    );
    assert_eq!(gateway_from_rtaddrs(0, &data), Err(GatewayError::NoDefaultRoute));
    assert_eq!(gateway_from_rtaddrs(-1, &[]), Err(GatewayError::NoDefaultRoute));
}

#[test]
fn lengths_are_rounded_up_to_words() {
    let word = std::mem::size_of::<isize>();
    assert_eq!(sa_roundup(0), 0);
    assert_eq!(sa_roundup(1), word);
    assert_eq!(sa_roundup(word), word);
    assert_eq!(sa_roundup(word + 1), 2 * word);
    assert_eq!(sa_roundup(16), 16);
    assert_eq!(sa_roundup(usize::MAX - word + 1), usize::MAX - word + 1);
}

#[test]
fn foreign_routing_messages_are_skipped() {
    let query = RouteQuery { pid: 77, seq: 1 };
    let data = make_sockaddr_in(Ipv4Addr::new(10, 2, 0, 1));
    let own = RouteHeader { addrs: RTA_GATEWAY, pid: 77, seq: 1, errno: 0 };
    assert_eq!(query.reply(None, &[]), RouteStep::Read);
    assert_eq!(query.reply(Some(RouteHeader { pid: 78, ..own }), &data), RouteStep::Read);
    assert_eq!(query.reply(Some(RouteHeader { seq: 2, ..own }), &data), RouteStep::Read);
    assert_eq!(
        query.reply(Some(RouteHeader { pid: 78, errno: 3, ..own }), &data),
        RouteStep::Read
    );
    assert_eq!(
        query.reply(Some(RouteHeader { errno: 3, ..own }), &data),
        RouteStep::Done(Err(GatewayError::NoDefaultRoute))
    );
    assert_eq!(query.reply(Some(own), &data), RouteStep::Done(Ok(Ipv4Addr::new(10, 2, 0, 1))));
}

// ---------------------------------------------------------------------------
// /proc/net/route
// ---------------------------------------------------------------------------

const HEADING: &str = "Iface\tDestination\tGateway \tFlags\tRefCnt\tUse\tMetric\tMask\t\tMTU\tWindow\tIRTT\n";

fn table(lines: &[&str]) -> String {
    let mut t = HEADING.to_owned();
    for line in lines {
        t.push_str(line);
        t.push('\n');
    }
    t
}

#[test]
fn default_routes_are_found() {
    let t = table(&[
        "eth0\t0000A8C0\t00000000\t0001\t0\t0\t100\t00FFFFFF\t0\t0\t0",
        "eth0\t00000000\t0101A8C0\t0003\t0\t0\t100\t00000000\t0\t0\t0",
        "tun0\t00000000\t0100020A\t0003\t0\t0\t50\t00000000\t0\t0\t0",
    ]);
    assert_eq!(parse_proc_net_route(&t), Ok(Ipv4Addr::new(192, 168, 1, 1)));
}

#[test]
fn tables_without_a_default_route_are_refused() {
    let none = Err(GatewayError::NoDefaultRoute);
    assert_eq!(parse_proc_net_route(""), none);
    assert_eq!(parse_proc_net_route(HEADING), none);
    // A route in the place of the heading is not seen.
    assert_eq!(parse_proc_net_route("eth0 00000000 0101A8C0 0003"), none);
    for line in [
        "eth0 00000001 0101A8C0 0003",
        "eth0 00000000 0101A8C0 0001",
        "eth0 00000000 0101A8C0 0002",
        "eth0 00000000 00000000 0003",
        "eth0 00000000 0101A8C0",
        "eth0 zzz 0101A8C0 0003",
        "eth0 00000000 zzz 0003",
        "eth0 00000000 0101A8C0 zzz",
        "eth0 000000000000000000001 0101A8C0 0003",
        "eth0 00000000 1FFFFFFFF 0003",
        "eth0 - 0101A8C0 0003",
        "eth0 + 0101A8C0 0003",
    ] {
        assert_eq!(parse_proc_net_route(&table(&[line])), none, "{line}");
    }
}

#[test]
fn routes_to_half_of_the_addresses_are_no_default_routes() {
    let none = Err(GatewayError::NoDefaultRoute);
    assert_eq!(
        parse_proc_net_route(
            "Iface Destination Gateway Flags RefCnt Use Metric Mask\n\
             tun0 00000000 0100020A 0003 0 0 0 00000080\n"
        ),
        none
    );
    for mask in ["00000080", "00FFFFFF", "FFFFFFFF", "+1"] {
        let line = format!("tun0 00000000 0100020A 0003 0 0 0 {mask} 0 0 0");
        assert_eq!(parse_proc_net_route(&table(&[&line])), none, "{mask}");
    }
    // A mask that is no number says nothing.
    for mask in ["0", "00000000", "zz", "100000000", "+", "-1"] {
        let line = format!("tun0 00000000 0100020A 0003 0 0 0 {mask}");
        assert_eq!(
            parse_proc_net_route(&table(&[&line])),
            Ok(Ipv4Addr::new(10, 2, 0, 1)),
            "{mask}"
        );
    }
    // The default route is still found behind such a route.
    let t = table(&[
        "tun0\t00000000\t0100020A\t0003\t0\t0\t0\t00000080\t0\t0\t0",
        "eth0\t00000000\t0101A8C0\t0003\t0\t0\t100\t00000000\t0\t0\t0",
    ]);
    assert_eq!(parse_proc_net_route(&t), Ok(Ipv4Addr::new(192, 168, 1, 1)));
    // A table without the column says nothing of the mask.
    let t = table(&["tun0 00000000 0100020A 0003 0 0 0"]);
    assert_eq!(parse_proc_net_route(&t), Ok(Ipv4Addr::new(10, 2, 0, 1)));
}

#[test]
fn default_routes_may_be_written_freely() {
    let gw = Ok(Ipv4Addr::new(192, 168, 1, 1));
    for line in [
        "eth0 0 101a8c0 3",
        "  eth0\u{a0}0\u{3000}0101A8C0\t7",
        "eth0 +0 +0101A8C0 +3",
        "eth0 00000000 0101A8C0 FFFFFFFF\r",
        "eth0 000000000000 0101A8C0 0003 0 0",
        "eth0 00000000 0000000101A8C0 0003",
    ] {
        assert_eq!(parse_proc_net_route(&table(&[line])), gw, "{line}");
    }
    assert_eq!(parse_proc_net_route("\neth0 0 101A8C0 3"), gw);
}

#[test]
fn later_lines_do_not_matter() {
    let t = table(&["eth0 0 101A8C0 3"]);
    let more = format!("{t}tun0 0 100020A 3\ngarbage\n");
    assert_eq!(parse_proc_net_route(&more), parse_proc_net_route(&t));
}

#[test]
fn any_text_is_parsed_without_panic() {
    for text in ["\u{0}", "\n\n\n", "\na b c d", "\n\u{10ffff} 0 \u{10ffff} 3", "a\r\nb\r\n"] {
        assert_eq!(parse_proc_net_route(text), Err(GatewayError::NoDefaultRoute));
    }
}

// ---------------------------------------------------------------------------
// The forwarding table
// ---------------------------------------------------------------------------

fn row(prefix_length: u8, metric: u32, last: u8) -> ForwardRow {
    ForwardRow { prefix_length, metric, next_hop: Ipv4Addr::new(10, 0, 0, last) }
}

#[test]
fn the_lowest_metric_wins() {
    assert_eq!(gateway_from_rows(&[]), Err(GatewayError::NoForwardRow));
    assert_eq!(gateway_from_rows(&[row(24, 0, 1)]), Err(GatewayError::NoForwardRow));
    let rows = [row(24, 0, 1), row(0, 50, 2), row(0, 25, 3), row(0, 25, 4), row(0, 30, 5)];
    assert_eq!(gateway_from_rows(&rows), Ok(Ipv4Addr::new(10, 0, 0, 3)));
    assert_eq!(gateway_from_rows(&[row(0, u32::MAX, 9)]), Ok(Ipv4Addr::new(10, 0, 0, 9)));
}

#[test]
fn gateway_errors_have_messages() {
    assert_eq!(GatewayError::NoDefaultRoute.message(), "no default route found");
    assert_eq!(GatewayError::NoForwardRow.message(), "no default route found; use --gateway");
    assert_eq!(
        GatewayError::NotIpv4 { sa_family: 30 }.message(),
        "default gateway is not IPv4 (sa_family=30)"
    );
    assert_eq!(GatewayError::Truncated.message(), "RTA_GATEWAY sockaddr is truncated");
    assert_eq!(
        GatewayError::Unsupported.message(),
        "auto-detection of the default gateway is not supported on this platform; use --gateway"
    );
}
