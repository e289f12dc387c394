//! The renewal loop: which mapping to ask for next, what a pair of mappings
//! amounts to, and when to renew it.
//!
//! A session maps TCP first and then UDP, for the private port that the TCP
//! response names.  Any failure starts over, without a private port, after a
//! pause.

use vstd::prelude::*;

use crate::natpmp::{PortMapping, Protocol};
use crate::text;

verus! {

/// The pause after a failed mapping, in seconds.
pub const RETRY_SECS: u64 = 30;

/// How long before the end of a lease it is renewed, in seconds.
pub const RENEW_MARGIN_SECS: u32 = 10;

/// The least time between two renewals, in seconds.
pub const MIN_RENEW_SECS: u32 = 5;

/// A mapping to ask the gateway for.
#[derive(Debug, Clone, Copy, PartialEq, Eq, Structural)]
pub struct MapRequest {
    /// The port to map, or 0 if the gateway is to choose.
    pub private_port: u16,
    pub protocol: Protocol,
    pub lifetime: u32,
}

/// What a TCP and a UDP mapping amount to together.
#[derive(Debug, Clone, Copy, PartialEq, Eq, Structural)]
pub struct Lease {
    pub private_port: u16,
    pub public_port: u16,
    /// The public port of the UDP mapping, which should be the same.
    pub udp_public_port: u16,
    pub lifetime: u32,
}

/// How far the loop has come.
#[derive(Debug, Clone, Copy, PartialEq, Eq, Structural)]
pub struct Session {
    /// The lifetime to ask for, in seconds.
    pub lifetime: u32,
    /// Whether to stop at the first lease.
    pub once: bool,
    /// The private port to ask for, or 0.
    pub private_port: u16,
    /// The TCP mapping, once it is there.
    pub tcp: Option<PortMapping>,
}

/// What to do after a mapping succeeded or failed.
#[derive(Debug, Clone, Copy, PartialEq, Eq, Structural)]
pub enum SessionStep {
    /// Ask for the next mapping.
    Ask(Session),
    /// Pause, then start over.
    Retry(Session),
    /// Announce the lease, and renew it when `renew_in` seconds have passed.
    Renew { lease: Lease, renew_in: u64, session: Session },
    /// Announce the lease, and stop.
    Stop { lease: Lease },
}

// ---------------------------------------------------------------------------
// Decisions
// ---------------------------------------------------------------------------

/// A session that holds nothing yet.
pub open spec fn started(lifetime: u32, once: bool) -> Session {
    Session { lifetime, once, private_port: 0, tcp: None }
}

/// The mapping that a session asks for.
pub open spec fn requested(s: Session) -> MapRequest {
    match s.tcp {
        None => MapRequest {
            private_port: s.private_port,
            protocol: Protocol::Tcp,
            lifetime: s.lifetime,
        },
        Some(tcp) => MapRequest {
            private_port: tcp.private_port,
            protocol: Protocol::Udp,
            lifetime: s.lifetime,
        },
    }
}

/// The lease that two mappings make: the ports of the TCP mapping, for as long
/// as both last.
pub open spec fn leased(tcp: PortMapping, udp: PortMapping) -> Lease {
    Lease {
        private_port: tcp.private_port,
        public_port: tcp.public_port,
        udp_public_port: udp.public_port,
        lifetime: if tcp.lifetime <= udp.lifetime {
            tcp.lifetime
        } else {
            udp.lifetime
        },
    }
}

/// The time from the start of a lease to its renewal, in seconds.
pub open spec fn renewal(lifetime: u32) -> int {
    if lifetime - RENEW_MARGIN_SECS >= MIN_RENEW_SECS {
        lifetime - RENEW_MARGIN_SECS
    } else {
        MIN_RENEW_SECS as int
    }
}

/// What follows from a mapping, or from its failure.
pub open spec fn stepped(s: Session, mapped: Option<PortMapping>) -> SessionStep {
    match (mapped, s.tcp) {
        (None, _) => SessionStep::Retry(Session { private_port: 0, tcp: None, ..s }),
        (Some(tcp), None) => SessionStep::Ask(Session { tcp: Some(tcp), ..s }),
        (Some(udp), Some(tcp)) => {
            let lease = leased(tcp, udp);
            if s.once {
                SessionStep::Stop { lease }
            } else {
                SessionStep::Renew {
                    lease,
                    renew_in: renewal(lease.lifetime) as u64,
                    session: Session { private_port: tcp.private_port, tcp: None, ..s },
                }
            }
        },
    }
}

impl Session {
    /// Starts a session.
    pub fn new(lifetime: u32, once: bool) -> (session: Self)
        ensures
            session == started(lifetime, once),
    {
        Session { lifetime, once, private_port: 0, tcp: None }
    }

    /// The mapping to ask the gateway for.
    pub fn request(&self) -> (request: MapRequest)
        ensures
            request == requested(*self),
    {
        match self.tcp {
            None => MapRequest {
                private_port: self.private_port,
                protocol: Protocol::Tcp,
                lifetime: self.lifetime,
            },
            Some(tcp) => MapRequest {
                private_port: tcp.private_port,
                protocol: Protocol::Udp,
                lifetime: self.lifetime,
            },
        }
    }

    /// Takes in the mapping that was asked for, or that it failed.
    pub fn step(self, mapped: Option<PortMapping>) -> (step: SessionStep)
        ensures
            step == stepped(self, mapped),
    {
        let mapping = match mapped {
            Some(mapping) => mapping,
            None => {
                return SessionStep::Retry(Session { private_port: 0, tcp: None, ..self });
            },
        };
        match self.tcp {
            None => SessionStep::Ask(Session { tcp: Some(mapping), ..self }),
            Some(tcp) => {
                let lease = Lease::new(tcp, mapping);
                if self.once {
                    SessionStep::Stop { lease }
                } else {
                    SessionStep::Renew {
                        lease,
                        renew_in: lease.renew_in(),
                        session: Session { private_port: tcp.private_port, tcp: None, ..self },
                    }
                }
            },
        }
    }
}

impl Lease {
    /// The lease that a TCP and a UDP mapping make.
    pub fn new(tcp: PortMapping, udp: PortMapping) -> (lease: Self)
        ensures
            lease == leased(tcp, udp),
    {
        Lease {
            private_port: tcp.private_port,
            public_port: tcp.public_port,
            udp_public_port: udp.public_port,
            lifetime: if tcp.lifetime <= udp.lifetime {
                tcp.lifetime
            } else {
                udp.lifetime
            },
        }
    }

    /// The time from the start of this lease to its renewal, in seconds.
    pub fn renew_in(&self) -> (secs: u64)
        ensures
            secs == renewal(self.lifetime),
    {
        let rest: u32 = self.lifetime.saturating_sub(RENEW_MARGIN_SECS);
        if rest >= MIN_RENEW_SECS {
            rest as u64
        } else {
            MIN_RENEW_SECS as u64
        }
    }
}

// ---------------------------------------------------------------------------
// Messages
// ---------------------------------------------------------------------------

/// The name of a protocol.
pub open spec fn protocol_name(protocol: Protocol) -> Seq<char> {
    match protocol {
        Protocol::Udp => "UDP"@,
        Protocol::Tcp => "TCP"@,
    }
}

/// What is said of a failed mapping.
pub open spec fn failure_text(protocol: Protocol, detail: Seq<char>) -> Seq<char> {
    "error: "@ + protocol_name(protocol) + " port mapping failed: "@ + detail + "; retrying in "@
        + text::decimal(RETRY_SECS as nat) + "s"@
}

/// Renders what is said of a failed mapping.
pub fn failure_message(protocol: Protocol, detail: &str) -> (message: String)
    ensures
        message@ == failure_text(protocol, detail@),
{
    let mut m = "error: ".to_owned();
    match protocol {
        Protocol::Udp => m.append("UDP"),
        Protocol::Tcp => m.append("TCP"),
    }
    m.append(" port mapping failed: ");
    m.append(detail);
    m.append("; retrying in ");
    m.append(text::decimal_text(RETRY_SECS).as_str());
    m.append("s");
    m
}

/// What is said of a renewal to come.
pub open spec fn renewal_text(secs: u64) -> Seq<char> {
    "renewing in "@ + text::decimal(secs as nat) + "s"@
}

/// Renders what is said of a renewal to come.
pub fn renewal_message(secs: u64) -> (message: String)
    ensures
        message@ == renewal_text(secs),
{
    let mut m = "renewing in ".to_owned();
    m.append(text::decimal_text(secs).as_str());
    m.append("s");
    m
}

impl Lease {
    /// The public port alone, on a line of its own.
    pub open spec fn port_text(self) -> Seq<char> {
        text::decimal(self.public_port as nat) + "\n"@
    }

    /// Renders the public port alone, on a line of its own, for programs to
    /// read.
    pub fn port_line(&self) -> (line: String)
        ensures
            line@ == self.port_text(),
    {
        let mut line = text::decimal_text(self.public_port as u64);
        line.append("\n");
        line
    }

    /// What is said of this lease.
    pub open spec fn mapped_text(self) -> Seq<char> {
        "mapped: private "@ + text::decimal(self.private_port as nat) + " → public "@
            + text::decimal(self.public_port as nat) + " (lifetime "@ + text::decimal(
            self.lifetime as nat,
        ) + "s)"@
    }

    /// Renders what is said of this lease.
    pub fn mapped_message(&self) -> (message: String)
        ensures
            message@ == self.mapped_text(),
    {
        let mut m = "mapped: private ".to_owned();
        m.append(text::decimal_text(self.private_port as u64).as_str());
        m.append(" → public ");
        m.append(text::decimal_text(self.public_port as u64).as_str());
        m.append(" (lifetime ");
        m.append(text::decimal_text(self.lifetime as u64).as_str());
        m.append("s)");
        m
    }

    /// What is said of public ports that differ.
    pub open spec fn mismatch_text(self) -> Seq<char> {
        "warning: TCP public port "@ + text::decimal(self.public_port as nat)
            + " != UDP public port "@ + text::decimal(self.udp_public_port as nat)
            + "; using TCP port"@
    }

    /// Renders a warning if the two public ports differ.
    pub fn mismatch_message(&self) -> (message: Option<String>)
        ensures
            message is Some <==> self.public_port != self.udp_public_port,
            message matches Some(m) ==> m@ == self.mismatch_text(),
    {
        if self.public_port == self.udp_public_port {
            return None;
        }
        let mut m = "warning: TCP public port ".to_owned();
        m.append(text::decimal_text(self.public_port as u64).as_str());
        m.append(" != UDP public port ");
        m.append(text::decimal_text(self.udp_public_port as u64).as_str());
        m.append("; using TCP port");
        Some(m)
    }
}

// ---------------------------------------------------------------------------
// Whole sessions
// ---------------------------------------------------------------------------

/// The session that goes on after a step, if it does.
pub open spec fn next_session(step: SessionStep) -> Option<Session> {
    match step {
        SessionStep::Ask(s) => Some(s),
        SessionStep::Retry(s) => Some(s),
        SessionStep::Renew { session, .. } => Some(session),
        SessionStep::Stop { .. } => None,
    }
}

/// The session after a run of mappings and failures, if it still goes on.
pub open spec fn after(s: Session, outcomes: Seq<Option<PortMapping>>) -> Option<Session>
    decreases outcomes.len(),
{
    if outcomes.len() == 0 {
        Some(s)
    } else {
        match next_session(stepped(s, outcomes[0])) {
            Some(t) => after(t, outcomes.drop_first()),
            None => None,
        }
    }
}

/// The UDP mapping is asked for with the private port that the TCP mapping
/// came with, and the two make the lease: the public port is that of TCP, and
/// the lease lasts no longer than either mapping.
pub proof fn law_udp_follows_tcp(s: Session, tcp: PortMapping, udp: PortMapping)
    requires
        s.tcp is None,
    ensures
        requested(s).protocol == Protocol::Tcp,
        stepped(s, Some(tcp)) matches SessionStep::Ask(t) && requested(t) == (MapRequest {
            private_port: tcp.private_port,
            protocol: Protocol::Udp,
            lifetime: s.lifetime,
        }) && match stepped(t, Some(udp)) {
            SessionStep::Stop { lease } => s.once && lease == leased(tcp, udp),
            SessionStep::Renew { lease, .. } => !s.once && lease == leased(tcp, udp),
            _ => false,
        },
        leased(tcp, udp).private_port == tcp.private_port,
        leased(tcp, udp).public_port == tcp.public_port,
        leased(tcp, udp).lifetime <= tcp.lifetime,
        leased(tcp, udp).lifetime <= udp.lifetime,
        leased(tcp, udp).lifetime == tcp.lifetime || leased(tcp, udp).lifetime == udp.lifetime,
{
}

/// A failure at any point starts over: the next mapping asked for is TCP, with
/// a port of the gateway's choice.
pub proof fn law_failure_starts_over(s: Session)
    ensures
        stepped(s, None) == SessionStep::Retry(started(s.lifetime, s.once)),
        requested(started(s.lifetime, s.once)) == (MapRequest {
            private_port: 0,
            protocol: Protocol::Tcp,
            lifetime: s.lifetime,
        }),
{
}

/// A renewal asks for the private port that the lease has.
pub proof fn law_renewal_keeps_the_port(s: Session, mapped: Option<PortMapping>)
    ensures
        stepped(s, mapped) matches SessionStep::Renew { lease, session, .. } ==> requested(session)
            == (MapRequest {
            private_port: lease.private_port,
            protocol: Protocol::Tcp,
            lifetime: s.lifetime,
        }),
{
}

/// A lease of more than five seconds is renewed before it expires: ten seconds
/// before if it lasts for fifteen or more.  There are at least five seconds
/// between two renewals.
pub proof fn law_renewed_before_expiry(s: Session, mapped: Option<PortMapping>)
    ensures
        stepped(s, mapped) matches SessionStep::Renew { lease, renew_in, .. } ==> {
            &&& renew_in == renewal(lease.lifetime)
            &&& renew_in >= 5
            &&& lease.lifetime > 5 ==> renew_in < lease.lifetime
            &&& lease.lifetime >= 15 ==> renew_in == lease.lifetime - 10
        },
{
}

/// A session that is to stop at the first lease announces one lease at most,
/// and stops with it.
pub proof fn law_once_stops_at_the_first_lease(s: Session, mapped: Option<PortMapping>)
    ensures
        s.once ==> stepped(s, mapped) !is Renew,
        s.once && s.tcp is Some && mapped is Some ==> stepped(s, mapped) is Stop,
        !s.once ==> stepped(s, mapped) !is Stop,
{
}

/// Whatever the gateway answers, a session that is not to stop goes on, and
/// every mapping it asks for has the lifetime it was started with.
pub proof fn law_sessions_go_on(s: Session, outcomes: Seq<Option<PortMapping>>)
    ensures
        !s.once ==> after(s, outcomes) is Some,
        after(s, outcomes) matches Some(t) ==> t.once == s.once && requested(t).lifetime
            == s.lifetime,
    decreases outcomes.len(),
{
    if outcomes.len() > 0 {
        if let Some(t) = next_session(stepped(s, outcomes[0])) {
            law_sessions_go_on(t, outcomes.drop_first());
        }
    }
}

/// The line for programs is the public port in decimal digits, and nothing
/// else.
pub proof fn law_port_line_is_bare(lease: Lease)
    ensures
        lease.port_text().last() == '\n',
        text::decimal_value(lease.port_text().drop_last()) == lease.public_port,
        forall|i: int|
            0 <= i < lease.port_text().len() - 1 ==> '0' <= #[trigger] lease.port_text()[i] <= '9',
{
    reveal_strlit("\n");
    let digits = text::decimal(lease.public_port as nat);
    text::law_decimal_reads_back(lease.public_port as nat);
    assert(lease.port_text().drop_last() == digits);
}

/// A session starts with TCP, for a port of the gateway's choice, and with the
/// lifetime that was asked for.
pub proof fn law_sessions_start_with_tcp(lifetime: u32, once: bool)
    ensures
        started(lifetime, once).once == once,
        requested(started(lifetime, once)).private_port == 0,
        requested(started(lifetime, once)).protocol is Tcp,
        requested(started(lifetime, once)).lifetime == lifetime,
{
}

/// What is asked for is decided by the TCP mapping: without one it is TCP, for
/// the port of the session; with one it is UDP, for the private port of that
/// mapping.
pub proof fn law_requests_of_a_session(s: Session)
    ensures
        requested(s).lifetime == s.lifetime,
        s.tcp is None ==> requested(s).protocol is Tcp && requested(s).private_port
            == s.private_port,
        s.tcp matches Some(tcp) ==> requested(s).protocol is Udp && requested(s).private_port
            == tcp.private_port,
{
}

/// A lease has both ports of the TCP mapping, the public port of the UDP
/// mapping, and the shorter of the two lifetimes.
pub proof fn law_lease_of_two_mappings(tcp: PortMapping, udp: PortMapping)
    ensures
        ({
            let lease = leased(tcp, udp);
            &&& lease.private_port == tcp.private_port
            &&& lease.public_port == tcp.public_port
            &&& lease.udp_public_port == udp.public_port
            &&& lease.lifetime <= tcp.lifetime
            &&& lease.lifetime <= udp.lifetime
            &&& lease.lifetime == tcp.lifetime || lease.lifetime == udp.lifetime
        }),
{
}

/// A lease of usable mappings is usable.
pub proof fn law_lease_is_usable(tcp: PortMapping, udp: PortMapping)
    requires
        tcp.public_port > 0,
        tcp.lifetime > 0,
        udp.lifetime > 0,
    ensures
        leased(tcp, udp).public_port > 0,
        leased(tcp, udp).lifetime > 0,
{
}

/// A lease of fifteen seconds or more is renewed ten seconds before its end,
/// a shorter one five seconds after its start.
pub proof fn law_time_of_renewal(lifetime: u32)
    ensures
        lifetime >= 15 ==> renewal(lifetime) + 10 == lifetime,
        lifetime < 15 ==> renewal(lifetime) == 5,
{
}

/// A failure starts over after any state: TCP is asked for next, for a port of
/// the gateway's choice, with the same lifetime.
pub proof fn law_failure_asks_for_tcp(s: Session)
    ensures
        stepped(s, None) matches SessionStep::Retry(t) && t.once == s.once && requested(
            t,
        ).private_port == 0 && requested(t).protocol is Tcp && requested(t).lifetime == s.lifetime,
{
}

/// The second mapping makes the lease, which ends the session if it is to stop
/// at the first lease and is renewed otherwise: with the private port that it
/// has, at the time that its lifetime asks for.
pub proof fn law_second_mapping_makes_the_lease(s: Session, tcp: PortMapping, udp: PortMapping)
    requires
        s.tcp == Some(tcp),
    ensures
        s.once ==> (stepped(s, Some(udp)) matches SessionStep::Stop { lease } && lease.public_port
            == tcp.public_port && lease == leased(tcp, udp)),
        !s.once ==> (stepped(s, Some(udp)) matches SessionStep::Renew { lease, renew_in, session }
            && lease == leased(tcp, udp) && renew_in == (if lease.lifetime >= 15 {
            lease.lifetime - 10
        } else {
            5
        }) && session.tcp is None && session.private_port == tcp.private_port && session.lifetime
            == s.lifetime && !session.once),
{
}

/// The messages say what was mapped, what failed and when the next renewal is.
pub proof fn law_messages_of_a_session(
    lease: Lease,
    protocol: Protocol,
    detail: Seq<char>,
    secs: u64,
)
    ensures
        lease.mapped_text() == "mapped: private "@ + text::decimal(lease.private_port as nat)
            + " → public "@ + text::decimal(lease.public_port as nat) + " (lifetime "@
            + text::decimal(lease.lifetime as nat) + "s)"@,
        lease.mismatch_text() == "warning: TCP public port "@ + text::decimal(
            lease.public_port as nat,
        ) + " != UDP public port "@ + text::decimal(lease.udp_public_port as nat)
            + "; using TCP port"@,
        renewal_text(secs) == "renewing in "@ + text::decimal(secs as nat) + "s"@,
        failure_text(protocol, detail) == "error: "@ + (if protocol is Tcp {
            "TCP"@
        } else {
            "UDP"@
        }) + " port mapping failed: "@ + detail + "; retrying in "@ + text::decimal(30) + "s"@,
{
}

} // verus!
