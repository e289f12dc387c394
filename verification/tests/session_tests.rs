//! The renewal loop.

use natpmp::session::{
    failure_message, renewal_message, Lease, MapRequest, Session, SessionStep, RETRY_SECS,
};
use natpmp::{PortMapping, Protocol};

fn mapping(private_port: u16, public_port: u16, lifetime: u32) -> PortMapping {
    PortMapping { private_port, public_port, lifetime }
}

fn ask(session: Session, mapped: PortMapping) -> Session {
    match session.step(Some(mapped)) {
        SessionStep::Ask(next) => next,
        step => panic!("unexpected {step:?}"),
    }
}

#[test]
fn tcp_is_mapped_before_udp() {
    let session = Session::new(60, false);
    assert_eq!(
        session.request(),
        MapRequest { private_port: 0, protocol: Protocol::Tcp, lifetime: 60 }
    );
    let session = ask(session, mapping(12345, 54321, 60));
    assert_eq!(
        session.request(),
        MapRequest { private_port: 12345, protocol: Protocol::Udp, lifetime: 60 }
    );
}

#[test]
fn leases_are_renewed_with_their_port() {
    let session = ask(Session::new(60, false), mapping(12345, 54321, 60));
    match session.step(Some(mapping(12345, 54321, 55))) {
        SessionStep::Renew { lease, renew_in, session } => {
            assert_eq!(
                lease,
                Lease {
                    private_port: 12345,
                    public_port: 54321,
                    udp_public_port: 54321,
                    lifetime: 55
                }
            );
            assert_eq!(renew_in, 45);
            assert_eq!(
                session.request(),
                MapRequest { private_port: 12345, protocol: Protocol::Tcp, lifetime: 60 }
            );
        }
        step => panic!("unexpected {step:?}"),
    }
}

#[test]
fn failures_start_over() {
    assert_eq!(RETRY_SECS, 30);
    let start = Session::new(60, false);
    let asked = ask(start, mapping(12345, 54321, 60));
    let renewing = match asked.step(Some(mapping(12345, 54321, 60))) {
        SessionStep::Renew { session, .. } => session,
        step => panic!("unexpected {step:?}"),
    };
    for session in [start, asked, renewing] {
        assert_eq!(session.step(None), SessionStep::Retry(start));
    }
}

#[test]
fn once_stops_at_the_first_lease() {
    let session = Session::new(60, true);
    assert_eq!(session.step(None), SessionStep::Retry(session));
    let session = ask(session, mapping(1, 2, 60));
    let lease = Lease { private_port: 1, public_port: 2, udp_public_port: 3, lifetime: 60 };
    assert_eq!(session.step(Some(mapping(1, 3, 70))), SessionStep::Stop { lease });
}

#[test]
fn renewal_is_ten_seconds_early() {
    let renew_in = |lifetime| Lease::new(mapping(1, 2, lifetime), mapping(1, 2, u32::MAX)).renew_in();
    assert_eq!(renew_in(60), 50);
    assert_eq!(renew_in(3600), 3590);
    assert_eq!(renew_in(u32::MAX), u64::from(u32::MAX) - 10);
    assert_eq!(renew_in(16), 6);
    assert_eq!(renew_in(15), 5);
    assert_eq!(renew_in(14), 5);
    assert_eq!(renew_in(6), 5);
    assert_eq!(renew_in(0), 5);
}

#[test]
fn leases_last_as_long_as_both_mappings() {
    assert_eq!(Lease::new(mapping(1, 2, 60), mapping(1, 2, 30)).lifetime, 30);
    assert_eq!(Lease::new(mapping(1, 2, 30), mapping(1, 2, 60)).lifetime, 30);
}

#[test]
fn sessions_announce_what_they_do() {
    let lease = Lease::new(mapping(12345, 54321, 60), mapping(12345, 54321, 60));
    assert_eq!(lease.mapped_message(), "mapped: private 12345 → public 54321 (lifetime 60s)");
    assert_eq!(lease.port_line(), "54321\n");
    assert_eq!(lease.mismatch_message(), None);
    assert_eq!(renewal_message(50), "renewing in 50s");
    assert_eq!(
        failure_message(Protocol::Tcp, "no response"),
        "error: TCP port mapping failed: no response; retrying in 30s"
    );
    assert_eq!(
        failure_message(Protocol::Udp, "no response"),
        "error: UDP port mapping failed: no response; retrying in 30s"
    );
    let lease = Lease::new(mapping(12345, 54321, 60), mapping(12345, 54322, 60));
    assert_eq!(
        lease.mismatch_message().as_deref(),
        Some("warning: TCP public port 54321 != UDP public port 54322; using TCP port")
    );
    assert_eq!(lease.public_port, 54321);
}
