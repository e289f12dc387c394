//! The network interface to send requests on.

use vstd::prelude::*;
use vstd::string::StringSliceAdditionalSpecFns;

use crate::addr::Ipv4Addr;
use crate::text;

verus! {

/// Why a socket cannot be bound to an interface.
#[derive(Debug, PartialEq, Eq)]
pub enum InterfaceError {
    /// The name holds a null byte, the first one at `position`.
    NulByte { position: usize },
    /// The system has no interface of that name.
    UnknownInterface { name: String },
    /// The system has no adapter of that name.
    UnknownAdapter { name: String },
    /// The adapter has no IPv4 address.
    NoIpv4 { name: String },
    /// The list of adapters never fitted the buffer.
    ListKeepsGrowing,
    /// Sockets cannot be bound to an interface on this platform.
    Unsupported { name: String },
}

impl InterfaceError {
    /// The message for this error.
    pub open spec fn text(self) -> Seq<char> {
        match self {
            InterfaceError::NulByte { position } =>
                "interface name contains null byte: nul byte found in provided data at position: "@
                + text::decimal(position as nat),
            InterfaceError::UnknownInterface { name } => "interface '"@ + name@
                + "' not found — run 'ifconfig' to list available interfaces"@,
            InterfaceError::UnknownAdapter { name } => "interface '"@ + name@
                + "' not found — run 'ipconfig' to list available interfaces"@,
            InterfaceError::NoIpv4 { name } => "interface '"@ + name@ + "' has no IPv4 address"@,
            InterfaceError::ListKeepsGrowing =>
                "GetAdaptersAddresses: buffer size kept growing unexpectedly"@,
            InterfaceError::Unsupported { name } =>
                "interface binding is not supported on this platform (requested: "@ + name@ + ")"@,
        }
    }

    /// Renders the message for this error.
    pub fn message(&self) -> (message: String)
        ensures
            message@ == self.text(),
    {
        match self {
            InterfaceError::NulByte { position } => {
                let mut m =
                    "interface name contains null byte: nul byte found in provided data at position: ".to_owned();
                m.append(text::decimal_text(*position as u64).as_str());
                m
            },
            InterfaceError::UnknownInterface { name } => {
                let mut m = "interface '".to_owned();
                m.append(name.as_str());
                m.append("' not found — run 'ifconfig' to list available interfaces");
                m
            },
            InterfaceError::UnknownAdapter { name } => {
                let mut m = "interface '".to_owned();
                m.append(name.as_str());
                m.append("' not found — run 'ipconfig' to list available interfaces");
                m
            },
            InterfaceError::NoIpv4 { name } => {
                let mut m = "interface '".to_owned();
                m.append(name.as_str());
                m.append("' has no IPv4 address");
                m
            },
            InterfaceError::ListKeepsGrowing =>
                "GetAdaptersAddresses: buffer size kept growing unexpectedly".to_owned(),
            InterfaceError::Unsupported { name } => {
                let mut m =
                    "interface binding is not supported on this platform (requested: ".to_owned();
                m.append(name.as_str());
                m.append(")");
                m
            },
        }
    }
}

// ---------------------------------------------------------------------------
// Unix
// ---------------------------------------------------------------------------

/// The null-terminated name to hand to the system for `iface`.  A name with a
/// null byte in it has none.
pub fn device_name(iface: &str) -> (r: Result<Vec<u8>, InterfaceError>)
    ensures
        match r {
            Ok(name) => !iface.spec_bytes().contains(0u8) && name@ == iface.spec_bytes().push(0u8),
            Err(e) => e matches InterfaceError::NulByte { position } && position
                < iface.spec_bytes().len() && iface.spec_bytes()[position as int] == 0
                && forall|k: int| 0 <= k < position ==> iface.spec_bytes()[k] != 0,
        },
{
    let bytes = iface.as_bytes();
    let mut name: Vec<u8> = Vec::new();
    let mut i: usize = 0;
    while i < bytes.len()
        invariant
            i <= bytes@.len(),
            bytes@ == iface.spec_bytes(),
            name@ == bytes@.take(i as int),
            forall|k: int| 0 <= k < i ==> bytes@[k] != 0,
        decreases bytes@.len() - i,
    {
        if bytes[i] == 0 {
            return Err(InterfaceError::NulByte { position: i });
        }
        name.push(bytes[i]);
        assert(bytes@.take(i + 1) == bytes@.take(i as int).push(bytes@[i as int]));
        i += 1;
    }
    assert(bytes@.take(bytes@.len() as int) == bytes@);
    name.push(0u8);
    Ok(name)
}

/// Checks the index that the system gave for `iface`: it gives 0 for a name
/// that it does not know.
pub fn interface_index(iface: &str, index: u32) -> (r: Result<u32, InterfaceError>)
    ensures
        match r {
            Ok(i) => i == index && index != 0,
            Err(e) => index == 0 && e is UnknownInterface && e->UnknownInterface_name@ == iface@,
        },
{
    if index == 0 {
        return Err(InterfaceError::UnknownInterface { name: iface.to_owned() });
    }
    Ok(index)
}

/// Refuses an interface on a platform whose sockets cannot be bound to one.
pub fn binding_unsupported(iface: &str) -> (e: InterfaceError)
    ensures
        e is Unsupported,
        e->Unsupported_name@ == iface@,
{
    InterfaceError::Unsupported { name: iface.to_owned() }
}

// ---------------------------------------------------------------------------
// Windows
// ---------------------------------------------------------------------------

/// The code with which the system says that a buffer is too small.
pub const ERROR_BUFFER_OVERFLOW: u32 = 111;

/// How often the list of adapters is asked for.
pub const ADAPTER_QUERIES: usize = 4;

/// The size of the first buffer for the list of adapters, in bytes.
pub const FIRST_BUFFER_LEN: u32 = 16384;

/// The address family of IPv4, as an adapter's addresses give it.
pub const AF_INET: u16 = 2;

/// A request for the list of adapters.
#[derive(Debug, Clone, Copy, PartialEq, Eq, Structural)]
pub struct AdapterQuery {
    /// Calls left, this one included.
    pub calls_left: usize,
    /// The size of the buffer to offer, in bytes.
    pub buf_len: u32,
}

/// What to do after a call for the list of adapters.
#[derive(Debug, PartialEq, Eq)]
pub enum AdapterStep {
    /// Call again with a larger buffer.
    Again(AdapterQuery),
    /// The buffer holds the list.
    Filled,
    /// The system reports an error of its own.
    SystemError(u32),
    /// The calls are used up.
    GaveUp(InterfaceError),
}

/// What follows from a call that returned `ret` and asked for `wanted` bytes.
pub open spec fn adapter_call(q: AdapterQuery, ret: u32, wanted: u32) -> AdapterStep {
    if ret == ERROR_BUFFER_OVERFLOW {
        if q.calls_left > 1 {
            AdapterStep::Again(
                AdapterQuery { calls_left: (q.calls_left - 1) as usize, buf_len: wanted },
            )
        } else {
            AdapterStep::GaveUp(InterfaceError::ListKeepsGrowing)
        }
    } else if ret != 0 {
        AdapterStep::SystemError(ret)
    } else {
        AdapterStep::Filled
    }
}

impl AdapterQuery {
    /// The first request.
    pub fn new() -> (q: Self)
        ensures
            q == (AdapterQuery { calls_left: ADAPTER_QUERIES, buf_len: FIRST_BUFFER_LEN }),
    {
        AdapterQuery { calls_left: ADAPTER_QUERIES, buf_len: FIRST_BUFFER_LEN }
    }

    /// The number of 8-byte words that cover the buffer.
    pub fn buffer_words(&self) -> (n: usize)
        ensures
            8 * n >= self.buf_len,
            8 * n < self.buf_len + 8,
    {
        let len: usize = self.buf_len as usize;
        if len % 8 == 0 {
            len / 8
        } else {
            len / 8 + 1
        }
    }

    /// Takes in what a call returned.
    pub fn returned(self, ret: u32, wanted: u32) -> (step: AdapterStep)
        ensures
            step == adapter_call(self, ret, wanted),
    {
        if ret == ERROR_BUFFER_OVERFLOW {
            if self.calls_left > 1 {
                return AdapterStep::Again(
                    AdapterQuery { calls_left: self.calls_left - 1, buf_len: wanted },
                );
            }
            return AdapterStep::GaveUp(InterfaceError::ListKeepsGrowing);
        }
        if ret != 0 {
            return AdapterStep::SystemError(ret);
        }
        AdapterStep::Filled
    }
}

/// A unicast address of an adapter.
#[derive(Debug, Clone, Copy, PartialEq, Eq, Structural)]
pub struct UnicastAddress {
    pub family: u16,
    pub addr: Ipv4Addr,
}

/// A network adapter: its name in UTF-16 and its unicast addresses, some of
/// which may be absent.
#[derive(Debug, PartialEq, Eq)]
pub struct Adapter {
    pub name: Vec<u16>,
    pub addresses: Vec<Option<UnicastAddress>>,
}

/// The first IPv4 address among some.
pub open spec fn first_ipv4(addresses: Seq<Option<UnicastAddress>>) -> Option<Ipv4Addr>
    decreases addresses.len(),
{
    if addresses.len() == 0 {
        None
    } else {
        match addresses[0] {
            Some(u) if u.family == AF_INET => Some(u.addr),
            _ => first_ipv4(addresses.drop_first()),
        }
    }
}

/// The index of the first adapter of a name, or their number if there is none.
pub open spec fn adapter_named(adapters: Seq<Adapter>, name: Seq<u16>) -> nat
    decreases adapters.len(),
{
    if adapters.len() == 0 || adapters[0].name@ == name {
        0
    } else {
        1 + adapter_named(adapters.drop_first(), name)
    }
}

fn same_units(a: &[u16], b: &[u16]) -> (same: bool)
    ensures
        same == (a@ == b@),
{
    if a.len() != b.len() {
        return false;
    }
    let mut i: usize = 0;
    while i < a.len()
        invariant
            i <= a@.len(),
            a@.len() == b@.len(),
            a@.take(i as int) == b@.take(i as int),
        decreases a@.len() - i,
    {
        if a[i] != b[i] {
            return false;
        }
        assert(a@.take(i + 1) == a@.take(i as int).push(a@[i as int]));
        assert(b@.take(i + 1) == b@.take(i as int).push(b@[i as int]));
        i += 1;
    }
    assert(a@.take(i as int) == a@ && b@.take(i as int) == b@);
    true
}

fn find_ipv4(addresses: &[Option<UnicastAddress>]) -> (r: Option<Ipv4Addr>)
    ensures
        r == first_ipv4(addresses@),
{
    let mut i: usize = 0;
    assert(addresses@.skip(0) == addresses@);
    while i < addresses.len()
        invariant
            i <= addresses@.len(),
            first_ipv4(addresses@) == first_ipv4(addresses@.skip(i as int)),
        decreases addresses@.len() - i,
    {
        assert(addresses@.skip(i as int)[0] == addresses@[i as int]);
        assert(addresses@.skip(i as int).drop_first() == addresses@.skip(i + 1));
        if let Some(u) = addresses[i] {
            if u.family == AF_INET {
                return Some(u.addr);
            }
        }
        i += 1;
    }
    assert(addresses@.skip(i as int).len() == 0);
    None
}

/// The IPv4 address of the adapter named `iface`: the first such address of
/// the first such adapter.
pub fn interface_ipv4(iface: &str, adapters: &[Adapter]) -> (r: Result<Ipv4Addr, InterfaceError>)
    ensures
        ({
            let k = adapter_named(adapters@, text::utf16(iface@));
            match r {
                Ok(addr) => k < adapters@.len() && first_ipv4(adapters@[k as int].addresses@)
                    == Some(addr),
                Err(InterfaceError::NoIpv4 { name }) => name@ == iface@ && k < adapters@.len()
                    && first_ipv4(adapters@[k as int].addresses@) is None,
                Err(InterfaceError::UnknownAdapter { name }) => name@ == iface@ && k
                    == adapters@.len(),
                Err(_) => false,
            }
        }),
{
    let wide = text::encode_utf16(iface);
    let mut i: usize = 0;
    assert(adapters@.skip(0) == adapters@);
    while i < adapters.len()
        invariant
            i <= adapters@.len(),
            wide@ == text::utf16(iface@),
            adapter_named(adapters@, wide@) == i + adapter_named(adapters@.skip(i as int), wide@),
        decreases adapters@.len() - i,
    {
        assert(adapters@.skip(i as int)[0] == adapters@[i as int]);
        assert(adapters@.skip(i as int).drop_first() == adapters@.skip(i + 1));
        if same_units(adapters[i].name.as_slice(), wide.as_slice()) {
            return match find_ipv4(adapters[i].addresses.as_slice()) {
                Some(addr) => Ok(addr),
                None => Err(InterfaceError::NoIpv4 { name: iface.to_owned() }),
            };
        }
        i += 1;
    }
    assert(adapters@.skip(i as int).len() == 0);
    Err(InterfaceError::UnknownAdapter { name: iface.to_owned() })
}

// ---------------------------------------------------------------------------
// Laws
// ---------------------------------------------------------------------------

proof fn lemma_null_character(c: char)
    ensures
        vstd::utf8::encode_scalar(c as u32).contains(0u8) <==> c == '\0',
{
    let v = c as u32;
    assert(v <= 0x7F ==> ((v & 0x7F) as u8 == 0u8 <==> v == 0)) by (bit_vector);
    assert(0xC0u8 | ((v >> 6) & 0x1F) as u8 != 0u8) by (bit_vector);
    assert(0xE0u8 | ((v >> 12) & 0x0F) as u8 != 0u8) by (bit_vector);
    assert(0xF0u8 | ((v >> 18) & 0x7) as u8 != 0u8) by (bit_vector);
    assert(0x80u8 | (v & 0x3F) as u8 != 0u8) by (bit_vector);
    assert(0x80u8 | ((v >> 6) & 0x3F) as u8 != 0u8) by (bit_vector);
    assert(0x80u8 | ((v >> 12) & 0x3F) as u8 != 0u8) by (bit_vector);
    if v == 0 {
        assert(vstd::utf8::encode_scalar(v)[0] == 0u8);
    }
}

proof fn lemma_null_bytes(name: Seq<char>)
    ensures
        vstd::utf8::encode_utf8(name).contains(0u8) <==> name.contains('\0'),
    decreases name.len(),
{
    if name.len() > 0 {
        let head = vstd::utf8::encode_scalar(name[0] as u32);
        let rest = name.drop_first();
        let tail = vstd::utf8::encode_utf8(rest);
        lemma_null_character(name[0]);
        lemma_null_bytes(rest);
        if (head + tail).contains(0u8) {
            let i = choose|i: int| 0 <= i < (head + tail).len() && (head + tail)[i] == 0u8;
            if i < head.len() {
                assert(head[i] == 0u8);
                assert(name[0] == '\0');
            } else {
                assert(tail[i - head.len()] == 0u8);
                let j = choose|j: int| 0 <= j < rest.len() && rest[j] == '\0';
                assert(name[j + 1] == '\0');
            }
        }
        if name.contains('\0') {
            let j = choose|j: int| 0 <= j < name.len() && name[j] == '\0';
            if j == 0 {
                let i = choose|i: int| 0 <= i < head.len() && head[i] == 0u8;
                assert((head + tail)[i] == 0u8);
            } else {
                assert(rest[j - 1] == '\0');
                let i = choose|i: int| 0 <= i < tail.len() && tail[i] == 0u8;
                assert((head + tail)[head.len() + i] == 0u8);
            }
        }
    }
}

/// An interface name has a null byte exactly if it has a null character: no
/// other character has one in its encoding.
pub proof fn law_null_byte_is_a_null_character(iface: &str)
    ensures
        iface.spec_bytes().contains(0u8) <==> iface@.contains('\0'),
{
    lemma_null_bytes(iface@);
}

/// What comes of calls whose buffers all turn out too small.
pub open spec fn after_overflows(q: AdapterQuery, wanted: Seq<u32>) -> AdapterStep
    decreases wanted.len(),
{
    if wanted.len() == 0 {
        AdapterStep::Again(q)
    } else {
        match adapter_call(q, ERROR_BUFFER_OVERFLOW, wanted[0]) {
            AdapterStep::Again(next) => after_overflows(next, wanted.drop_first()),
            end => end,
        }
    }
}

proof fn lemma_after_overflows(q: AdapterQuery, wanted: Seq<u32>)
    requires
        q.calls_left >= 1,
    ensures
        wanted.len() >= q.calls_left ==> after_overflows(q, wanted) == AdapterStep::GaveUp(
            InterfaceError::ListKeepsGrowing,
        ),
        0 < wanted.len() < q.calls_left ==> after_overflows(q, wanted) == AdapterStep::Again(
            AdapterQuery {
                calls_left: (q.calls_left - wanted.len()) as usize,
                buf_len: wanted.last(),
            },
        ),
    decreases wanted.len(),
{
    if wanted.len() > 0 && q.calls_left > 1 {
        let next = AdapterQuery { calls_left: (q.calls_left - 1) as usize, buf_len: wanted[0] };
        let rest = wanted.drop_first();
        lemma_after_overflows(next, rest);
        if rest.len() > 0 {
            assert(rest.last() == wanted.last());
        }
    }
}

/// The list of adapters is asked for at most four times, each time with a
/// buffer of the size last asked for.
pub proof fn law_adapter_calls_are_bounded(wanted: Seq<u32>)
    ensures
        ({
            let first = AdapterQuery { calls_left: ADAPTER_QUERIES, buf_len: FIRST_BUFFER_LEN };
            &&& wanted.len() >= ADAPTER_QUERIES ==> after_overflows(first, wanted)
                == AdapterStep::GaveUp(InterfaceError::ListKeepsGrowing)
            &&& 0 < wanted.len() < ADAPTER_QUERIES ==> (after_overflows(
                first,
                wanted,
            ) matches AdapterStep::Again(q) && q.buf_len == wanted.last())
        }),
{
    lemma_after_overflows(
        AdapterQuery { calls_left: ADAPTER_QUERIES, buf_len: FIRST_BUFFER_LEN },
        wanted,
    );
}

/// A call for the list of adapters succeeds with 0; 111 means that the buffer
/// is too small, and the next call offers what was asked for, if one is left;
/// any other code is an error of the system.
pub proof fn law_codes_of_adapter_calls(q: AdapterQuery, ret: u32, wanted: u32)
    ensures
        ret == 0 ==> adapter_call(q, ret, wanted) is Filled,
        ret == 111 && q.calls_left > 1 ==> (adapter_call(
            q,
            ret,
            wanted,
        ) matches AdapterStep::Again(next) && next.buf_len == wanted && next.calls_left + 1
            == q.calls_left),
        ret == 111 && q.calls_left <= 1 ==> adapter_call(q, ret, wanted) == AdapterStep::GaveUp(
            InterfaceError::ListKeepsGrowing,
        ),
        ret != 0 && ret != 111 ==> adapter_call(q, ret, wanted) == AdapterStep::SystemError(ret),
{
}

/// The address of an adapter is the first of its addresses with family 2.  It
/// has none exactly if no address has that family.
pub proof fn law_first_ipv4_address(addresses: Seq<Option<UnicastAddress>>, i: int)
    requires
        0 <= i < addresses.len(),
        forall|j: int|
            0 <= j < i ==> !(#[trigger] addresses[j] matches Some(u) && u.family == 2),
    ensures
        addresses[i] matches Some(u) ==> u.family == 2 ==> first_ipv4(addresses) == Some(u.addr),
        i + 1 == addresses.len() && !(addresses[i] matches Some(u) && u.family == 2)
            ==> first_ipv4(addresses) is None,
        first_ipv4(Seq::empty()) is None,
    decreases i,
{
    let rest = addresses.drop_first();
    if i > 0 {
        assert(!(addresses[0] matches Some(u) && u.family == 2));
        assert forall|j: int| 0 <= j < i - 1 implies !(#[trigger] rest[j] matches Some(u)
            && u.family == 2) by {
            assert(rest[j] == addresses[j + 1]);
        }
        law_first_ipv4_address(rest, i - 1);
    } else if addresses.len() == 1 {
        assert(first_ipv4(rest) is None);
    }
}

/// The adapter of a name is the first that has exactly that name.
pub proof fn law_first_adapter_of_a_name(adapters: Seq<Adapter>, name: Seq<u16>)
    ensures
        adapter_named(adapters, name) <= adapters.len(),
        forall|j: int|
            0 <= j < adapter_named(adapters, name) ==> (#[trigger] adapters[j]).name@ != name,
        adapter_named(adapters, name) < adapters.len() ==> adapters[adapter_named(
            adapters,
            name,
        ) as int].name@ == name,
    decreases adapters.len(),
{
    if adapters.len() > 0 && adapters[0].name@ != name {
        let rest = adapters.drop_first();
        law_first_adapter_of_a_name(rest, name);
        assert forall|j: int| 0 <= j < adapter_named(adapters, name) implies (
        #[trigger] adapters[j]).name@ != name by {
            if j > 0 {
                assert(adapters[j] == rest[j - 1]);
            }
        }
    }
}

/// The messages say which name the system does not know, or where the null byte
/// is.
pub proof fn law_messages_name_the_interface(e: InterfaceError)
    ensures
        e matches InterfaceError::NulByte { position } ==> e.text()
            == "interface name contains null byte: nul byte found in provided data at position: "@
            + text::decimal(position as nat),
        e matches InterfaceError::UnknownInterface { name } ==> e.text() == "interface '"@ + name@
            + "' not found — run 'ifconfig' to list available interfaces"@,
        e matches InterfaceError::UnknownAdapter { name } ==> e.text() == "interface '"@ + name@
            + "' not found — run 'ipconfig' to list available interfaces"@,
        e matches InterfaceError::NoIpv4 { name } ==> e.text() == "interface '"@ + name@
            + "' has no IPv4 address"@,
        e matches InterfaceError::Unsupported { name } ==> e.text()
            == "interface binding is not supported on this platform (requested: "@ + name@ + ")"@,
{
}

} // verus!
