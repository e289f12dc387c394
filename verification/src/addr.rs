//! IPv4 addresses.

use vstd::prelude::*;

use crate::text::decimal_text;

verus! {

/// An IPv4 address `a.b.c.d`.
#[derive(Debug, Clone, Copy, PartialEq, Eq, Structural)]
pub struct Ipv4Addr {
    pub a: u8,
    pub b: u8,
    pub c: u8,
    pub d: u8,
}

impl Ipv4Addr {
    /// The address `a.b.c.d`.
    pub fn new(a: u8, b: u8, c: u8, d: u8) -> (addr: Self)
        ensures
            addr == (Ipv4Addr { a, b, c, d }),
    {
        Ipv4Addr { a, b, c, d }
    }

    /// The four octets, in the order in which they are written.
    pub fn octets(&self) -> (octets: [u8; 4])
        ensures
            octets@ == seq![self.a, self.b, self.c, self.d],
    {
        [self.a, self.b, self.c, self.d]
    }

    /// The dotted-decimal form of the address.
    pub open spec fn dotted(self) -> Seq<char> {
        crate::text::decimal(self.a as nat) + "."@ + crate::text::decimal(self.b as nat) + "."@
            + crate::text::decimal(self.c as nat) + "."@ + crate::text::decimal(self.d as nat)
    }

    /// Renders the address in dotted-decimal form.
    pub fn to_text(&self) -> (text: String)
        ensures
            text@ == self.dotted(),
    {
        let mut text = decimal_text(self.a as u64);
        text.append(".");
        text.append(decimal_text(self.b as u64).as_str());
        text.append(".");
        text.append(decimal_text(self.c as u64).as_str());
        text.append(".");
        text.append(decimal_text(self.d as u64).as_str());
        text
    }
}

/// The dotted form is four decimal numbers with dots between them: the octets,
/// in their order.
pub proof fn law_dotted_form_reads_back(addr: Ipv4Addr)
    ensures
        ({
            let numbers = crate::text::split(addr.dotted(), '.');
            &&& numbers.len() == 4
            &&& crate::text::decimal_value(numbers[0]) == addr.a
            &&& crate::text::decimal_value(numbers[1]) == addr.b
            &&& crate::text::decimal_value(numbers[2]) == addr.c
            &&& crate::text::decimal_value(numbers[3]) == addr.d
            &&& forall|i: int, j: int|
                0 <= i < 4 && 0 <= j < numbers[i].len() ==> '0' <= #[trigger] numbers[i][j] <= '9'
        }),
{
    reveal_strlit(".");
    assert("."@ == seq!['.']);
    let a = crate::text::decimal(addr.a as nat);
    let b = crate::text::decimal(addr.b as nat);
    let c = crate::text::decimal(addr.c as nat);
    let d = crate::text::decimal(addr.d as nat);
    crate::text::law_decimal_reads_back(addr.a as nat);
    crate::text::law_decimal_reads_back(addr.b as nat);
    crate::text::law_decimal_reads_back(addr.c as nat);
    crate::text::law_decimal_reads_back(addr.d as nat);
    let cd = c + seq!['.'] + d;
    let bcd = b + seq!['.'] + cd;
    assert(addr.dotted() == a + seq!['.'] + bcd);
    crate::text::law_split_at_every_separator(a, bcd, '.');
    crate::text::law_split_at_every_separator(b, cd, '.');
    crate::text::law_split_at_every_separator(c, d, '.');
    crate::text::law_split_at_every_separator(d, d, '.');
    assert(crate::text::split(addr.dotted(), '.') == seq![a, b, c, d]);
}

} // verus!
