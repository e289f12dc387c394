//! Interface names, indices and adapters.

use natpmp::interface::{
    binding_unsupported, device_name, interface_index, interface_ipv4, Adapter, AdapterQuery,
    AdapterStep, InterfaceError, UnicastAddress,
};
use natpmp::Ipv4Addr;

#[test]
fn bind_to_nonexistent_interface_errors() {
    let err = interface_index("nonexistent999", 0).unwrap_err();
    assert!(err.message().contains("not found"));
}

#[test]
fn bind_to_interface_null_byte_in_name_errors() {
    let err = device_name("lo\x000").unwrap_err();
    assert!(err.message().contains("null byte"));
}

#[test]
fn names_are_null_terminated() {
    assert_eq!(device_name("proton0"), Ok(b"proton0\0".to_vec()));
    assert_eq!(device_name(""), Ok(vec![0]));
    assert_eq!(device_name("é"), Ok(vec![0xc3, 0xa9, 0]));
    assert_eq!(device_name("\0"), Err(InterfaceError::NulByte { position: 0 }));
    assert_eq!(device_name("é\0\0"), Err(InterfaceError::NulByte { position: 2 }));
}

#[test]
fn known_interfaces_have_an_index() {
    assert_eq!(interface_index("lo0", 1), Ok(1));
    assert_eq!(interface_index("lo0", u32::MAX), Ok(u32::MAX));
}

fn unicast(family: u16, last: u8) -> Option<UnicastAddress> {
    Some(UnicastAddress { family, addr: Ipv4Addr::new(10, 2, 0, last) })
}

fn adapter(name: &str, addresses: Vec<Option<UnicastAddress>>) -> Adapter {
    Adapter { name: name.encode_utf16().collect(), addresses }
}

#[test]
fn adapters_are_found_by_name() {
    let adapters = [
        adapter("Ethernet", vec![unicast(2, 9)]),
        adapter("ProtonVPN", vec![None, unicast(23, 1), unicast(2, 2), unicast(2, 3)]),
        adapter("ProtonVPN", vec![unicast(2, 4)]),
        adapter("Wi-Fi", vec![None, unicast(23, 5)]),
        adapter("Réseau 𝄞", vec![unicast(2, 6)]),
    ];
    let at = |last| Ok(Ipv4Addr::new(10, 2, 0, last));
    assert_eq!(interface_ipv4("ProtonVPN", &adapters), at(2));
    assert_eq!(interface_ipv4("Ethernet", &adapters), at(9));
    assert_eq!(interface_ipv4("Réseau 𝄞", &adapters), at(6));
    assert_eq!(
        interface_ipv4("Wi-Fi", &adapters),
        Err(InterfaceError::NoIpv4 { name: "Wi-Fi".to_owned() })
    );
    for name in ["protonvpn", "Proton", "ProtonVPN2", ""] {
        assert_eq!(
            interface_ipv4(name, &adapters),
            Err(InterfaceError::UnknownAdapter { name: name.to_owned() })
        );
    }
}

#[test]
fn adapter_lists_are_asked_for_four_times() {
    let mut query = AdapterQuery::new();
    assert_eq!(query.buf_len, 16_384);
    for wanted in [20_000, 30_000, 40_000] {
        match query.returned(111, wanted) {
            AdapterStep::Again(next) => query = next,
            step => panic!("unexpected {step:?}"),
        }
        assert_eq!(query.buf_len, wanted);
    }
    assert_eq!(query.returned(0, 40_000), AdapterStep::Filled);
    assert_eq!(query.returned(5, 0), AdapterStep::SystemError(5));
    assert_eq!(
        query.returned(111, 50_000),
        AdapterStep::GaveUp(InterfaceError::ListKeepsGrowing)
    );
}

#[test]
fn buffers_are_whole_words() {
    for (buf_len, words) in [(0, 0), (1, 1), (8, 1), (9, 2), (16_384, 2048), (u32::MAX, 0x2000_0000)] {
        let query = AdapterQuery { calls_left: 1, buf_len };
        assert_eq!(query.buffer_words(), words);
    }
}

#[test]
fn interface_errors_have_messages() {
    let name = || "tun0".to_owned();
    let cases = [
        (
            InterfaceError::NulByte { position: 2 },
            "interface name contains null byte: nul byte found in provided data at position: 2",
        ),
        (
            InterfaceError::UnknownInterface { name: name() },
            "interface 'tun0' not found — run 'ifconfig' to list available interfaces",
        ),
        (
            InterfaceError::UnknownAdapter { name: name() },
            "interface 'tun0' not found — run 'ipconfig' to list available interfaces",
        ),
        (InterfaceError::NoIpv4 { name: name() }, "interface 'tun0' has no IPv4 address"),
        (
            InterfaceError::ListKeepsGrowing,
            "GetAdaptersAddresses: buffer size kept growing unexpectedly",
        ),
        (
            binding_unsupported("tun0"),
            "interface binding is not supported on this platform (requested: tun0)",
        ),
    ];
    for (error, message) in cases {
        assert_eq!(error.message(), message);
    }
}
