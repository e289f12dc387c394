//! The default gateway, out of what each system tells of its routing table.

use vstd::prelude::*;

use crate::addr::Ipv4Addr;
use crate::text;

verus! {

/// Why no default gateway was found.
#[derive(Debug, Clone, Copy, PartialEq, Eq, Structural)]
pub enum GatewayError {
    /// The routing table has no usable default route.
    NoDefaultRoute,
    /// The forwarding table has no default route.
    NoForwardRow,
    /// The default route leads to a gateway of another address family.
    NotIpv4 { sa_family: u8 },
    /// The gateway's address is incomplete.
    Truncated,
    /// The routing table cannot be read on this platform.
    Unsupported,
}

impl GatewayError {
    /// The message for this error.
    pub open spec fn text(self) -> Seq<char> {
        match self {
            GatewayError::NoDefaultRoute => "no default route found"@,
            GatewayError::NoForwardRow => "no default route found; use --gateway"@,
            GatewayError::NotIpv4 { sa_family } => "default gateway is not IPv4 (sa_family="@
                + text::decimal(sa_family as nat) + ")"@,
            GatewayError::Truncated => "RTA_GATEWAY sockaddr is truncated"@,
            GatewayError::Unsupported =>
                "auto-detection of the default gateway is not supported on this platform; use --gateway"@,
        }
    }

    /// Renders the message for this error.
    pub fn message(&self) -> (message: String)
        ensures
            message@ == self.text(),
    {
        match self {
            GatewayError::NoDefaultRoute => "no default route found".to_owned(),
            GatewayError::NoForwardRow => "no default route found; use --gateway".to_owned(),
            GatewayError::NotIpv4 { sa_family } => {
                let mut m = "default gateway is not IPv4 (sa_family=".to_owned();
                m.append(text::decimal_text(*sa_family as u64).as_str());
                m.append(")");
                m
            },
            GatewayError::Truncated => "RTA_GATEWAY sockaddr is truncated".to_owned(),
            GatewayError::Unsupported =>
                "auto-detection of the default gateway is not supported on this platform; use --gateway".to_owned(),
        }
    }
}

// ---------------------------------------------------------------------------
// Linux: /proc/net/route
// ---------------------------------------------------------------------------

/// The address whose octets are the bytes of `n`, lowest byte first.
pub open spec fn le_address(n: u32) -> Ipv4Addr {
    Ipv4Addr {
        a: (n % 256) as u8,
        b: (n / 0x100 % 256) as u8,
        c: (n / 0x10000 % 256) as u8,
        d: (n / 0x1000000) as u8,
    }
}

fn address_from_le(n: u32) -> (addr: Ipv4Addr)
    ensures
        addr == le_address(n),
{
    Ipv4Addr::new(
        (n % 256) as u8,
        (n / 0x100 % 256) as u8,
        (n / 0x10000 % 256) as u8,
        (n / 0x1000000) as u8,
    )
}

/// Whether the columns of a line hold a mask other than zero, so that the route
/// is for some destinations only.
pub open spec fn narrow_mask(cols: Seq<Seq<char>>) -> bool {
    cols.len() >= 8 && (text::hex_u32(cols[7]) matches Some(mask) && mask != 0)
}

/// The gateway in one line of the routing table, if the line is that of a
/// usable default route: destination zero, flags up and gateway both set, a
/// gateway other than zero, and no mask other than zero.  The columns are
/// interface, destination, gateway, flags, reference count, use, metric and
/// mask; there may be more, and those after the flags may be missing.  An
/// unreadable destination, gateway or flags column rules the line out; a mask
/// that is missing or unreadable does not.
pub open spec fn route_gateway(line: Seq<char>) -> Option<Ipv4Addr> {
    let cols = text::words(line);
    if cols.len() < 4 || narrow_mask(cols) {
        None
    } else {
        match (text::hex_u32(cols[1]), text::hex_u32(cols[2]), text::hex_u32(cols[3])) {
            (Some(dest), Some(gw), Some(flags)) => if dest == 0 && flags % 4 == 3 && gw != 0 {
                Some(le_address(gw))
            } else {
                None
            },
            _ => None,
        }
    }
}

/// The gateway in the first of some lines that has one.
pub open spec fn first_gateway(lines: Seq<Seq<char>>) -> Option<Ipv4Addr>
    decreases lines.len(),
{
    if lines.len() == 0 {
        None
    } else {
        match route_gateway(lines[0]) {
            Some(gw) => Some(gw),
            None => first_gateway(lines.drop_first()),
        }
    }
}

/// The default gateway in a routing table, whose first line is a heading.
pub open spec fn table_gateway(content: Seq<char>) -> Option<Ipv4Addr> {
    first_gateway(text::split(content, '\n').skip(1))
}

fn parse_route(line: &[char]) -> (r: Option<Ipv4Addr>)
    ensures
        r == route_gateway(line@),
{
    let cols = text::split_words(line);
    assert(text::contents(cols@) == text::words(line@));
    if cols.len() < 4 {
        return None;
    }
    assert(cols@[1]@ == text::contents(cols@)[1]);
    assert(cols@[2]@ == text::contents(cols@)[2]);
    assert(cols@[3]@ == text::contents(cols@)[3]);
    let dest: u32 = match text::parse_hex(cols[1]) {
        Some(n) => n,
        None => 1,
    };
    if dest != 0 {
        return None;
    }
    let flags: u32 = match text::parse_hex(cols[3]) {
        Some(n) => n,
        None => 0,
    };
    assert(flags & 0x0003 == flags % 4) by (bit_vector);
    if cols.len() >= 8 {
        assert(cols@[7]@ == text::contents(cols@)[7]);
        let mask: u32 = match text::parse_hex(cols[7]) {
            Some(n) => n,
            None => 0,
        };
        if mask != 0 {
            return None;
        }
    }
    if flags & 0x0003 != 0x0003 {
        // The route must be up and lead to a gateway.
        return None;
    }
    let gw: u32 = match text::parse_hex(cols[2]) {
        Some(n) => n,
        None => 0,
    };
    if gw == 0 {
        return None;
    }
    Some(address_from_le(gw))
}

/// Reads the default gateway out of the text of `/proc/net/route`.
pub fn parse_proc_net_route(content: &str) -> (r: Result<Ipv4Addr, GatewayError>)
    ensures
        match r {
            Ok(gw) => table_gateway(content@) == Some(gw),
            Err(e) => table_gateway(content@) is None && e == GatewayError::NoDefaultRoute,
        },
{
    let chars = text::characters(content);
    let lines = text::split_at_each(chars.as_slice(), '\n');
    let ghost all = text::split(content@, '\n');
    assert(text::contents(lines@) == all);
    let mut i: usize = 1;
    proof {
        lemma_split_is_nonempty(content@, '\n');
    }
    while i < lines.len()
        invariant
            1 <= i <= lines@.len(),
            all == text::split(content@, '\n'),
            text::contents(lines@) == all,
            first_gateway(all.skip(1)) == first_gateway(all.skip(i as int)),
        decreases lines@.len() - i,
    {
        assert(lines@[i as int]@ == all[i as int]);
        assert(all.skip(i as int)[0] == all[i as int]);
        assert(all.skip(i as int).drop_first() == all.skip(i as int + 1));
        if let Some(gw) = parse_route(lines[i]) {
            return Ok(gw);
        }
        i += 1;
    }
    assert(all.skip(i as int).len() == 0);
    Err(GatewayError::NoDefaultRoute)
}

/// A split text has at least one piece.
proof fn lemma_split_is_nonempty(s: Seq<char>, sep: char)
    ensures
        text::split(s, sep).len() >= 1,
{
}

// ---------------------------------------------------------------------------
// macOS and FreeBSD: routing sockets
// ---------------------------------------------------------------------------

/// The flag of the destination among the addresses of a routing message.
pub const RTA_DST: i32 = 1;

/// The flag of the gateway among the addresses of a routing message.
pub const RTA_GATEWAY: i32 = 2;

/// The index of the gateway among the addresses of a routing message.
pub const RTAX_GATEWAY: usize = 1;

/// The number of addresses that a routing message can have.
pub const RTAX_MAX: usize = 8;

/// The address family of IPv4.
pub const AF_INET: u8 = 2;

/// The size of an IPv4 socket address.
pub const SOCKADDR_IN_LEN: usize = 16;

/// The size of the system's `long`, to which socket addresses are padded.
pub open spec fn long_size() -> nat {
    vstd::layout::size_of::<isize>()
}

/// Whether bit `k` of `flags` is set.
pub open spec fn has_flag(flags: i32, k: nat) -> bool {
    flags & (1i32 << k) != 0
}

/// The least multiple of `unit` that is at least `n`.
pub open spec fn rounded_up(n: nat, unit: nat) -> nat {
    if n % unit == 0 {
        n
    } else {
        (n - n % unit + unit) as nat
    }
}

/// The space that a socket address of length `sa_len` takes in a message.
pub open spec fn slot_size(sa_len: u8) -> nat {
    if sa_len == 0 {
        long_size()
    } else {
        rounded_up(sa_len as nat, long_size())
    }
}

/// The offset at which the address with index `k` starts if it is present: the
/// addresses are packed in the order of their indices.  There is none if the
/// message ends before an earlier address starts.
pub open spec fn slot_offset(addrs: i32, data: Seq<u8>, k: nat) -> Option<nat>
    decreases k,
{
    if k == 0 {
        Some(0)
    } else {
        match slot_offset(addrs, data, (k - 1) as nat) {
            Some(at) => if !has_flag(addrs, (k - 1) as nat) {
                Some(at)
            } else if at < data.len() {
                Some(at + slot_size(data[at as int]))
            } else {
                None
            },
            None => None,
        }
    }
}

/// The gateway in the addresses of a routing message.
pub open spec fn message_gateway(addrs: i32, data: Seq<u8>) -> Result<Ipv4Addr, GatewayError> {
    match slot_offset(addrs, data, RTAX_GATEWAY as nat) {
        Some(at) => if !has_flag(addrs, RTAX_GATEWAY as nat) || at >= data.len() {
            Err(GatewayError::NoDefaultRoute)
        } else {
            let sa_family = if at + 1 < data.len() {
                data[at as int + 1]
            } else {
                0u8
            };
            if sa_family != AF_INET {
                Err(GatewayError::NotIpv4 { sa_family })
            } else if data[at as int] < SOCKADDR_IN_LEN || at + data[at as int] > data.len() {
                Err(GatewayError::Truncated)
            } else {
                Ok(
                    Ipv4Addr {
                        a: data[at as int + 4],
                        b: data[at as int + 5],
                        c: data[at as int + 6],
                        d: data[at as int + 7],
                    },
                )
            }
        },
        None => Err(GatewayError::NoDefaultRoute),
    }
}

/// Rounds the length of a socket address up to the system's `long`.
pub fn sa_roundup(len: usize) -> (r: usize)
    requires
        len + long_size() - 1 <= usize::MAX,
    ensures
        r == rounded_up(len as nat, long_size()),
{
    broadcast use vstd::layout::layout_of_primitives;

    let align: usize = core::mem::size_of::<isize>();
    assert(align == 4 || align == 8);
    let r: usize = (len + (align - 1)) & !((align - 1) as usize);
    proof {
        let sum: usize = (len + (align - 1)) as usize;
        if align == 4 {
            assert(sum & !3usize == sum - sum % 4) by (bit_vector);
        } else {
            assert(sum & !7usize == sum - sum % 8) by (bit_vector);
        }
    }
    r
}

/// Walks the packed socket addresses of a routing message and reads the
/// gateway among them.
pub fn gateway_from_rtaddrs(addrs: i32, data: &[u8]) -> (r: Result<Ipv4Addr, GatewayError>)
    ensures
        r == message_gateway(addrs, data@),
{
    broadcast use vstd::layout::layout_of_primitives;

    let mut offset: usize = 0;
    let mut bit: usize = 0;
    while bit < RTAX_MAX
        invariant
            bit <= RTAX_MAX,
            bit <= RTAX_GATEWAY ==> slot_offset(addrs, data@, bit as nat) == Some(offset as nat),
            bit > RTAX_GATEWAY ==> message_gateway(addrs, data@) == Err::<Ipv4Addr, _>(
                GatewayError::NoDefaultRoute,
            ),
        decreases RTAX_MAX - bit,
    {
        let flag: i32 = 1i32 << bit;
        if addrs & flag != 0 {
            if offset >= data.len() {
                return Err(GatewayError::NoDefaultRoute);
            }
            let sa_len: u8 = data[offset];
            if bit == RTAX_GATEWAY {
                let sa_family: u8 = if data.len() - offset > 1 {
                    data[offset + 1]
                } else {
                    0
                };
                if sa_family != AF_INET {
                    return Err(GatewayError::NotIpv4 { sa_family });
                }
                if (sa_len as usize) < SOCKADDR_IN_LEN || sa_len as usize > data.len() - offset {
                    return Err(GatewayError::Truncated);
                }
                return Ok(
                    Ipv4Addr::new(
                        data[offset + 4],
                        data[offset + 5],
                        data[offset + 6],
                        data[offset + 7],
                    ),
                );
            }
            let size: usize = if sa_len == 0 {
                core::mem::size_of::<isize>()
            } else {
                sa_roundup(sa_len as usize)
            };
            if size >= data.len() - offset {
                // No address follows this one.
                return Err(GatewayError::NoDefaultRoute);
            }
            offset = offset + size;
        }
        bit += 1;
    }
    Err(GatewayError::NoDefaultRoute)
}

/// The part of a routing message's header that tells whose reply it is and
/// what it says.
#[derive(Debug, Clone, Copy, PartialEq, Eq, Structural)]
pub struct RouteHeader {
    pub addrs: i32,
    pub pid: i32,
    pub seq: i32,
    pub errno: i32,
}

/// A request for the default route, sent by process `pid` under number `seq`.
#[derive(Debug, Clone, Copy, PartialEq, Eq, Structural)]
pub struct RouteQuery {
    pub pid: i32,
    pub seq: i32,
}

/// What to do after reading a routing message.
#[derive(Debug, Clone, Copy, PartialEq, Eq)]
pub enum RouteStep {
    /// The message is not the reply: read the next.
    Read,
    /// The reply has come.
    Done(Result<Ipv4Addr, GatewayError>),
}

/// What follows from a message that a routing socket gave.  Replies to other
/// processes and other requests arrive on the same socket, and a message may
/// be too short for a header.
pub open spec fn route_reply(q: RouteQuery, header: Option<RouteHeader>, data: Seq<u8>) -> RouteStep {
    match header {
        None => RouteStep::Read,
        Some(h) => if h.pid != q.pid || h.seq != q.seq {
            RouteStep::Read
        } else if h.errno != 0 {
            RouteStep::Done(Err(GatewayError::NoDefaultRoute))
        } else {
            RouteStep::Done(message_gateway(h.addrs, data))
        },
    }
}

impl RouteQuery {
    /// Takes in a message: its header, if it is long enough for one, and the
    /// addresses after it.
    pub fn reply(&self, header: Option<RouteHeader>, data: &[u8]) -> (step: RouteStep)
        ensures
            step == route_reply(*self, header, data@),
    {
        match header {
            None => RouteStep::Read,
            Some(h) => {
                if h.pid != self.pid || h.seq != self.seq {
                    return RouteStep::Read;
                }
                if h.errno != 0 {
                    return RouteStep::Done(Err(GatewayError::NoDefaultRoute));
                }
                RouteStep::Done(gateway_from_rtaddrs(h.addrs, data))
            },
        }
    }
}

// ---------------------------------------------------------------------------
// Windows: the forwarding table
// ---------------------------------------------------------------------------

/// One row of the forwarding table.
#[derive(Debug, Clone, Copy, PartialEq, Eq, Structural)]
pub struct ForwardRow {
    pub prefix_length: u8,
    pub metric: u32,
    pub next_hop: Ipv4Addr,
}

/// Whether row `i` is the default route to use: one with an empty prefix and
/// the lowest metric, and the first of those.
pub open spec fn is_best_row(rows: Seq<ForwardRow>, i: int) -> bool {
    &&& 0 <= i < rows.len()
    &&& rows[i].prefix_length == 0
    &&& forall|j: int|
        0 <= j < rows.len() && (#[trigger] rows[j]).prefix_length == 0 ==> rows[i].metric
            <= rows[j].metric && (j < i ==> rows[i].metric < rows[j].metric)
}

/// Picks the default gateway out of the forwarding table.
pub fn gateway_from_rows(rows: &[ForwardRow]) -> (r: Result<Ipv4Addr, GatewayError>)
    ensures
        match r {
            Ok(gw) => exists|i: int| #[trigger] is_best_row(rows@, i) && gw == rows@[i].next_hop,
            Err(e) => e == GatewayError::NoForwardRow && forall|i: int|
                0 <= i < rows@.len() ==> (#[trigger] rows@[i]).prefix_length != 0,
        },
{
    let mut best: Option<usize> = None;
    let mut i: usize = 0;
    while i < rows.len()
        invariant
            i <= rows@.len(),
            match best {
                Some(b) => b < i && is_best_row(rows@.take(i as int), b as int),
                None => forall|j: int| 0 <= j < i ==> (#[trigger] rows@[j]).prefix_length != 0,
            },
        decreases rows@.len() - i,
    {
        let ghost seen = rows@.take(i as int);
        let ghost next = rows@.take(i + 1);
        assert(forall|j: int| 0 <= j < i ==> #[trigger] next[j] == seen[j]);
        assert(next[i as int] == rows@[i as int]);
        if rows[i].prefix_length == 0 {
            let better: bool = match best {
                Some(b) => rows[i].metric < rows[b].metric,
                None => true,
            };
            if better {
                best = Some(i);
            }
        }
        i += 1;
    }
    assert(rows@.take(rows@.len() as int) == rows@);
    match best {
        Some(b) => {
            assert(is_best_row(rows@, b as int));
            Ok(rows[b].next_hop)
        },
        None => Err(GatewayError::NoForwardRow),
    }
}

// ---------------------------------------------------------------------------
// Laws
// ---------------------------------------------------------------------------

/// The gateway of a routing table is that of the first line with one.
pub proof fn law_first_route_wins(lines: Seq<Seq<char>>, i: int)
    requires
        0 <= i < lines.len(),
        route_gateway(lines[i]) is Some,
        forall|j: int| 0 <= j < i ==> route_gateway(#[trigger] lines[j]) is None,
    ensures
        first_gateway(lines) == route_gateway(lines[i]),
    decreases i,
{
    if i > 0 {
        assert(route_gateway(lines[0]) is None);
        let rest = lines.drop_first();
        assert forall|j: int| 0 <= j < i - 1 implies route_gateway(#[trigger] rest[j]) is None by {
            assert(rest[j] == lines[j + 1]);
        }
        law_first_route_wins(rest, i - 1);
    }
}

/// A routing table has no gateway exactly if none of its lines has one.
pub proof fn law_no_route_means_no_gateway(lines: Seq<Seq<char>>)
    ensures
        first_gateway(lines) is None <==> forall|j: int|
            0 <= j < lines.len() ==> route_gateway(#[trigger] lines[j]) is None,
    decreases lines.len(),
{
    if lines.len() > 0 {
        let rest = lines.drop_first();
        law_no_route_means_no_gateway(rest);
        if first_gateway(lines) is None {
            assert forall|j: int| 0 <= j < lines.len() implies route_gateway(
                #[trigger] lines[j],
            ) is None by {
                if j > 0 {
                    assert(lines[j] == rest[j - 1]);
                }
            }
        } else if route_gateway(lines[0]) is None {
            let j = choose|j: int| 0 <= j < rest.len() && route_gateway(#[trigger] rest[j]) is Some;
            assert(lines[j + 1] == rest[j]);
        }
    }
}

proof fn lemma_first_gateway_prefix(a: Seq<Seq<char>>, b: Seq<Seq<char>>)
    requires
        first_gateway(a) is Some,
    ensures
        first_gateway(a + b) == first_gateway(a),
    decreases a.len(),
{
    assert((a + b)[0] == a[0]);
    if route_gateway(a[0]) is None {
        assert((a + b).drop_first() == a.drop_first() + b);
        lemma_first_gateway_prefix(a.drop_first(), b);
    }
}

/// Lines after the default route do not change the answer.
pub proof fn law_later_lines_do_not_matter(content: Seq<char>, more: Seq<char>)
    requires
        table_gateway(content) is Some,
    ensures
        table_gateway(content + seq!['\n'] + more) == table_gateway(content),
{
    text::law_split_at_every_separator(content, more, '\n');
    lemma_split_is_nonempty(content, '\n');
    let a = text::split(content, '\n');
    let b = text::split(more, '\n');
    assert((a + b).skip(1) == a.skip(1) + b);
    lemma_first_gateway_prefix(a.skip(1), b);
}

/// The first line is a heading: a text of one line names no gateway.
pub proof fn law_heading_is_skipped(heading: Seq<char>)
    requires
        !heading.contains('\n'),
    ensures
        table_gateway(heading) is None,
{
    assert forall|i: int| 0 <= i < heading.len() implies heading[i] != '\n' by {
        assert(heading.contains(heading[i]));
    }
    text::lemma_position(heading, '\n', heading.len() as int);
    assert(text::split(heading, '\n').skip(1).len() == 0);
}

/// A gateway that was found is never 0.0.0.0.
pub proof fn law_gateway_is_not_zero(content: Seq<char>)
    ensures
        table_gateway(content) matches Some(gw) ==> gw != (Ipv4Addr { a: 0, b: 0, c: 0, d: 0 }),
{
    lemma_first_gateway_not_zero(text::split(content, '\n').skip(1));
}

proof fn lemma_first_gateway_not_zero(lines: Seq<Seq<char>>)
    ensures
        first_gateway(lines) matches Some(gw) ==> gw != (Ipv4Addr { a: 0, b: 0, c: 0, d: 0 }),
    decreases lines.len(),
{
    if lines.len() > 0 {
        lemma_first_gateway_not_zero(lines.drop_first());
    }
}

/// A routing message without a gateway among its addresses names none.
pub proof fn law_gateway_flag_is_needed(addrs: i32, data: Seq<u8>)
    requires
        !has_flag(addrs, RTAX_GATEWAY as nat),
    ensures
        message_gateway(addrs, data) == Err::<Ipv4Addr, GatewayError>(
            GatewayError::NoDefaultRoute,
        ),
{
}

/// A route to less than every destination is not a default route: a line whose
/// mask is a number other than zero names no gateway.
pub proof fn law_default_route_matches_everything(line: Seq<char>)
    requires
        narrow_mask(text::words(line)),
    ensures
        route_gateway(line) is None,
{
}

/// The address in a routing table is the number of its gateway column, lowest
/// byte first.
pub proof fn law_addresses_are_little_endian(n: u32)
    ensures
        ({
            let addr = le_address(n);
            n == addr.a + 0x100 * addr.b + 0x10000 * addr.c + 0x1000000 * addr.d
        }),
{
}

/// An IPv4 socket address.
pub open spec fn sockaddr_in(ip: Ipv4Addr) -> Seq<u8> {
    seq![SOCKADDR_IN_LEN as u8, AF_INET, 0u8, 0u8, ip.a, ip.b, ip.c, ip.d] + Seq::new(
        8,
        |i: int| 0u8,
    )
}

/// A routing message whose first address is that of a gateway names it.
pub proof fn law_gateway_alone_is_found(ip: Ipv4Addr, more: Seq<u8>)
    ensures
        message_gateway(RTA_GATEWAY, sockaddr_in(ip) + more) == Ok::<Ipv4Addr, GatewayError>(ip),
{
    assert(2i32 & (1i32 << 0) == 0) by (bit_vector);
    assert(2i32 & (1i32 << 1) != 0) by (bit_vector);
    reveal_with_fuel(slot_offset, 2);
}

/// A routing message names the gateway that follows the destination, whatever
/// the destination is.
pub proof fn law_gateway_after_destination_is_found(dst: Seq<u8>, ip: Ipv4Addr, more: Seq<u8>)
    requires
        dst.len() > 0,
        dst.len() == slot_size(dst[0]),
    ensures
        message_gateway(RTA_DST | RTA_GATEWAY, dst + sockaddr_in(ip) + more) == Ok::<
            Ipv4Addr,
            GatewayError,
        >(ip),
{
    assert((1i32 | 2i32) & (1i32 << 0) != 0) by (bit_vector);
    assert((1i32 | 2i32) & (1i32 << 1) != 0) by (bit_vector);
    reveal_with_fuel(slot_offset, 2);
    let data = dst + sockaddr_in(ip) + more;
    let at = dst.len() as int;
    assert(data[0] == dst[0]);
    assert forall|i: int| 0 <= i < 16 implies data[at + i] == sockaddr_in(ip)[i] by {}
    assert(data[at] == 16 && data[at + 1] == 2);
    assert(data[at + 4] == ip.a && data[at + 5] == ip.b && data[at + 6] == ip.c && data[at + 7]
        == ip.d);
}

/// At most one row of a forwarding table is the one to use.
pub proof fn law_best_row_is_unique(rows: Seq<ForwardRow>, i: int, j: int)
    requires
        is_best_row(rows, i),
        is_best_row(rows, j),
    ensures
        i == j,
{
}

/// A line names the gateway of a default route by its number, lowest byte
/// first: the destination is zero, the route is up and leads to a gateway, and
/// no mask says that it is for some destinations only.
pub proof fn law_default_route_names_its_gateway(line: Seq<char>, n: u32, flags: u32)
    requires
        text::words(line).len() >= 4,
        text::hex_u32(text::words(line)[1]) == Some(0u32),
        text::hex_u32(text::words(line)[2]) == Some(n),
        n != 0,
        text::hex_u32(text::words(line)[3]) == Some(flags),
        flags % 4 == 3,
        text::words(line).len() < 8 || text::hex_u32(text::words(line)[7]) is None
            || text::hex_u32(text::words(line)[7]) == Some(0u32),
    ensures
        route_gateway(line) matches Some(gw) && gw.a + 0x100 * gw.b + 0x10000 * gw.c + 0x1000000
            * gw.d == n,
{
}

/// A gateway that a line names is the number in its third column, lowest byte
/// first, and the line is that of a default route.
pub proof fn law_named_gateway_stands_in_the_line(line: Seq<char>)
    ensures
        route_gateway(line) matches Some(gw) ==> {
            let cols = text::words(line);
            let n = gw.a + 0x100 * gw.b + 0x10000 * gw.c + 0x1000000 * gw.d;
            &&& cols.len() >= 4
            &&& text::hex_u32(cols[1]) == Some(0u32)
            &&& text::hex_u32(cols[2]) == Some(n as u32)
            &&& n != 0
            &&& text::hex_u32(cols[3]) matches Some(flags) && flags % 4 == 3
            &&& cols.len() < 8 || text::hex_u32(cols[7]) is None || text::hex_u32(cols[7]) == Some(
                0u32,
            )
        },
{
}

/// A routing table is read line by line after its heading: the gateway of the
/// table is that of the next line, or, if that line has none, that of the table
/// without it.
pub proof fn law_table_is_read_line_by_line(heading: Seq<char>, line: Seq<char>, more: Seq<char>)
    requires
        !heading.contains('\n'),
        !line.contains('\n'),
    ensures
        table_gateway(heading) is None,
        table_gateway(heading + seq!['\n'] + line) == route_gateway(line),
        route_gateway(line) is Some ==> table_gateway(
            heading + seq!['\n'] + (line + seq!['\n'] + more),
        ) == route_gateway(line),
        route_gateway(line) is None ==> table_gateway(
            heading + seq!['\n'] + (line + seq!['\n'] + more),
        ) == table_gateway(heading + seq!['\n'] + more),
{
    let rest = line + seq!['\n'] + more;
    law_heading_is_skipped(heading);
    text::law_split_at_every_separator(heading, line, '\n');
    text::law_split_at_every_separator(heading, rest, '\n');
    text::law_split_at_every_separator(heading, more, '\n');
    text::law_split_at_every_separator(line, more, '\n');
    let lines = text::split(more, '\n');
    assert((seq![heading] + seq![line]).skip(1) == seq![line]);
    assert(first_gateway(seq![line].drop_first()) is None);
    assert(seq![line][0] == line);
    assert(first_gateway(seq![line]) == route_gateway(line));
    assert((seq![heading] + lines).skip(1) == lines);
    let all = seq![line] + lines;
    assert((seq![heading] + all).skip(1) == all);
    assert(all[0] == line);
    assert(all.drop_first() == lines);
}

/// A rounded length is the next multiple, and an address takes that much space
/// in a message: one word if it is empty.
pub proof fn law_addresses_are_padded(sa_len: u8, n: nat, unit: nat)
    requires
        unit == 4 || unit == 8,
    ensures
        rounded_up(n, unit) % unit == 0,
        n <= rounded_up(n, unit) < n + unit,
        long_size() == 4 || long_size() == 8,
        slot_size(0) == long_size(),
        sa_len > 0 ==> slot_size(sa_len) % long_size() == 0 && sa_len <= slot_size(sa_len) < sa_len
            + long_size(),
{
    broadcast use vstd::layout::layout_of_primitives;

    lemma_rounded_up(n, unit);
    lemma_rounded_up(sa_len as nat, long_size());
}

proof fn lemma_rounded_up(n: nat, unit: nat)
    requires
        unit == 4 || unit == 8,
    ensures
        rounded_up(n, unit) % unit == 0,
        n <= rounded_up(n, unit) < n + unit,
{
    if unit == 4 {
        assert(rounded_up(n, 4) % 4 == 0);
    } else {
        assert(rounded_up(n, 8) % 8 == 0);
    }
}

/// Only the flags of the destination and of the gateway matter: whatever other
/// addresses a message has come after these.
pub proof fn law_later_addresses_do_not_matter(addrs: i32, others: i32, data: Seq<u8>)
    requires
        addrs & 3 == others & 3,
    ensures
        message_gateway(addrs, data) == message_gateway(others, data),
{
    lemma_flags(addrs);
    lemma_flags(others);
    assert(addrs & 3 == others & 3 ==> addrs & 1 == others & 1 && addrs & 2 == others & 2)
        by (bit_vector);
    reveal_with_fuel(slot_offset, 2);
}

proof fn lemma_flags(addrs: i32)
    ensures
        has_flag(addrs, 0) <==> addrs & 1 != 0,
        has_flag(addrs, 1) <==> addrs & 2 != 0,
{
    assert(1i32 << 0 == 1i32) by (bit_vector);
    assert(1i32 << 1 == 2i32) by (bit_vector);
}

/// A message without the flag of the gateway names none, whatever else is
/// flagged.
pub proof fn law_unflagged_gateway_is_not_read(addrs: i32, data: Seq<u8>)
    ensures
        addrs & 2 == 0 || data.len() == 0 ==> message_gateway(addrs, data) == Err::<
            Ipv4Addr,
            GatewayError,
        >(GatewayError::NoDefaultRoute),
{
    lemma_flags(addrs);
    reveal_with_fuel(slot_offset, 2);
}

/// The gateway stands at the start of a message, or after the destination if
/// there is one, which is padded to whole words of `word` bytes.  It is read if
/// it is of family 2, is at least sixteen bytes long and is all there; the error
/// says which of these is wrong, and a message that ends before it names none.
pub proof fn law_gateway_is_read_where_it_stands(addrs: i32, data: Seq<u8>, at: int)
    requires
        addrs & 2 != 0,
        addrs & 1 == 0 ==> at == 0,
        addrs & 1 != 0 ==> data.len() > 0 && ({
            let word = vstd::layout::size_of::<isize>() as int;
            &&& data[0] == 0 ==> at == word
            &&& data[0] != 0 ==> at % word == 0 && data[0] <= at < data[0] + word
        }),
    ensures
        at >= data.len() ==> message_gateway(addrs, data) == Err::<Ipv4Addr, GatewayError>(
            GatewayError::NoDefaultRoute,
        ),
        at < data.len() ==> ({
            let family = if at + 1 < data.len() {
                data[at + 1]
            } else {
                0u8
            };
            match message_gateway(addrs, data) {
                Err(GatewayError::NotIpv4 { sa_family }) => family != 2 && sa_family == family,
                Err(GatewayError::Truncated) => family == 2 && (data[at] < 16 || at + data[at]
                    > data.len()),
                Ok(gw) => family == 2 && data[at] >= 16 && at + data[at] <= data.len() && gw
                    == (Ipv4Addr {
                    a: data[at + 4],
                    b: data[at + 5],
                    c: data[at + 6],
                    d: data[at + 7],
                }),
                Err(_) => false,
            }
        }),
{
    broadcast use vstd::layout::layout_of_primitives;

    lemma_flags(addrs);
    reveal_with_fuel(slot_offset, 2);
    if addrs & 1 != 0 {
        law_addresses_are_padded(data[0], 0, 4);
        assert(slot_size(data[0]) == at);
    }
}

/// A message is the reply exactly if it has a header with the process and the
/// number of the request; an error number in it means that there is no route.
pub proof fn law_replies_are_told_by_process_and_number(
    pid: i32,
    seq: i32,
    h: RouteHeader,
    data: Seq<u8>,
)
    ensures
        ({
            let q = RouteQuery { pid, seq };
            &&& route_reply(q, None, data) is Read
            &&& route_reply(q, Some(h), data) is Read <==> h.pid != pid || h.seq != seq
            &&& h.pid == pid && h.seq == seq && h.errno != 0 ==> route_reply(q, Some(h), data)
                == RouteStep::Done(Err(GatewayError::NoDefaultRoute))
            &&& h.pid == pid && h.seq == seq && h.errno == 0 ==> route_reply(q, Some(h), data)
                == RouteStep::Done(message_gateway(h.addrs, data))
        }),
{
}

/// The row to use is a default route, none has a lower metric, and none before
/// it has the same.
pub proof fn law_best_row_has_the_lowest_metric(rows: Seq<ForwardRow>, i: int, j: int)
    requires
        is_best_row(rows, i),
        0 <= j < rows.len(),
        rows[j].prefix_length == 0,
    ensures
        0 <= i < rows.len(),
        rows[i].prefix_length == 0,
        rows[i].metric <= rows[j].metric,
        j < i ==> rows[i].metric < rows[j].metric,
{
}

/// A forwarding table with a default route has a row to use.
pub proof fn law_best_row_exists(rows: Seq<ForwardRow>, j: int) -> (i: int)
    requires
        0 <= j < rows.len(),
        rows[j].prefix_length == 0,
    ensures
        is_best_row(rows, i),
    decreases rows.len(),
{
    let n = rows.len() - 1;
    let front = rows.drop_last();
    if exists|k: int| 0 <= k < n && (#[trigger] front[k]).prefix_length == 0 {
        let k = choose|k: int| 0 <= k < n && (#[trigger] front[k]).prefix_length == 0;
        let b = law_best_row_exists(front, k);
        assert forall|m: int| 0 <= m < n implies #[trigger] rows[m] == front[m] by {}
        if rows[n].prefix_length == 0 && rows[n].metric < rows[b].metric {
            assert forall|m: int|
                0 <= m < rows.len() && (#[trigger] rows[m]).prefix_length == 0 implies rows[n].metric
                <= rows[m].metric && (m < n ==> rows[n].metric < rows[m].metric) by {
                if m < n {
                    assert(front[m].prefix_length == 0);
                }
            }
            n
        } else {
            assert forall|m: int|
                0 <= m < rows.len() && (#[trigger] rows[m]).prefix_length == 0 implies rows[b].metric
                <= rows[m].metric && (m < b ==> rows[b].metric < rows[m].metric) by {
                if m < n {
                    assert(front[m].prefix_length == 0);
                }
            }
            b
        }
    } else {
        if j < n {
            assert(front[j] == rows[j]);
        }
        assert forall|m: int| 0 <= m < n implies (#[trigger] rows[m]).prefix_length != 0 by {
            assert(front[m] == rows[m]);
        }
        n
    }
}

/// The message for a gateway of another address family says which.
pub proof fn law_message_names_the_family(sa_family: u8)
    ensures
        (GatewayError::NotIpv4 { sa_family }).text() == "default gateway is not IPv4 (sa_family="@
            + text::decimal(sa_family as nat) + ")"@,
{
}

} // verus!
