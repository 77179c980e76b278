//! IPv6 addresses.

use crate::text::{
    chars_of, hex_quad, joined, lemma_hex_quad_reads_back, lemma_joined_take,
    lemma_parsed_joined, parse_fields, parsed, push_hex_quad, FieldsError,
};
use vstd::prelude::*;

verus! {

/// The number of sixteen-bit groups in an IPv6 address.
pub const IPV6_ADDR_LEN: usize = 8;

/// An IPv6 address: eight sixteen-bit groups, most significant first.
#[derive(Clone, Copy, Debug, PartialEq, Eq, Structural, PartialOrd, Ord, Hash)]
pub struct Ipv6Addr(pub u16, pub u16, pub u16, pub u16, pub u16, pub u16, pub u16, pub u16);

/// Why a text is no IPv6 address.
#[derive(Clone, Copy, Debug, PartialEq, Eq, Structural)]
pub enum ParseIpv6AddrErr {
    /// The text has more than eight components.
    TooManyComponents,
    /// The text has fewer than eight components.
    TooFewComponents,
    /// A component is empty, no hexadecimal number, or above `ffff`.
    InvalidComponent,
}

/// The eight components of the text of `a`.
pub open spec fn ipv6_parts(a: Ipv6Addr) -> Seq<Seq<char>> {
    seq![
        hex_quad(a.0 as int),
        hex_quad(a.1 as int),
        hex_quad(a.2 as int),
        hex_quad(a.3 as int),
        hex_quad(a.4 as int),
        hex_quad(a.5 as int),
        hex_quad(a.6 as int),
        hex_quad(a.7 as int),
    ]
}

/// The text of `a`: eight groups of four lower-case hexadecimal digits with
/// colons between them.
pub open spec fn ipv6_text(a: Ipv6Addr) -> Seq<char> {
    joined(ipv6_parts(a), ':')
}

/// The address that a text holds: eight colon-separated hexadecimal
/// components, each at most `ffff`. The shortened forms with `::` are not
/// read.
pub open spec fn ipv6_from_text(s: Seq<char>) -> Result<Ipv6Addr, ParseIpv6AddrErr> {
    match parsed(s, ':', 16, 0xffff, 8) {
        Ok(v) => Ok(
            Ipv6Addr(
                v[0] as u16,
                v[1] as u16,
                v[2] as u16,
                v[3] as u16,
                v[4] as u16,
                v[5] as u16,
                v[6] as u16,
                v[7] as u16,
            ),
        ),
        Err(FieldsError::TooMany) => Err(ParseIpv6AddrErr::TooManyComponents),
        Err(FieldsError::TooFew) => Err(ParseIpv6AddrErr::TooFewComponents),
        Err(FieldsError::Invalid) => Err(ParseIpv6AddrErr::InvalidComponent),
    }
}

impl Ipv6Addr {
    /// The address with the given groups.
    pub fn new(a: u16, b: u16, c: u16, d: u16, e: u16, f: u16, g: u16, h: u16) -> (r: Ipv6Addr)
        ensures
            r == Ipv6Addr(a, b, c, d, e, f, g, h),
    {
        Ipv6Addr(a, b, c, d, e, f, g, h)
    }

    /// The all-zero address.
    pub fn zero() -> (r: Ipv6Addr)
        ensures
            r == Ipv6Addr(0, 0, 0, 0, 0, 0, 0, 0),
    {
        Ipv6Addr(0, 0, 0, 0, 0, 0, 0, 0)
    }

    /// The eight groups, most significant first.
    pub fn segments(&self) -> (r: [u16; 8])
        ensures
            r@ == seq![self.0, self.1, self.2, self.3, self.4, self.5, self.6, self.7],
    {
        let r = [self.0, self.1, self.2, self.3, self.4, self.5, self.6, self.7];
        assert(r@ =~= seq![self.0, self.1, self.2, self.3, self.4, self.5, self.6, self.7]);
        r
    }

    /// Writes the address as text.
    pub fn to_string(&self) -> (r: String)
        ensures
            r@ == ipv6_text(*self),
    {
        let o = self.segments();
        let ghost parts = ipv6_parts(*self);
        let mut out = String::new();
        let mut i: usize = 0;
        while i < 8
            invariant
                i <= 8,
                parts == ipv6_parts(*self),
                o@ == seq![self.0, self.1, self.2, self.3, self.4, self.5, self.6, self.7],
                out@ == joined(parts.take(i as int), ':'),
            decreases 8 - i,
        {
            if i > 0 {
                out.push(':');
            }
            push_hex_quad(&mut out, o[i]);
            proof {
                lemma_joined_take(parts, i as int, ':');
                assert(parts[i as int] == hex_quad(o@[i as int] as int));
                assert(Seq::<char>::empty() + parts[0] =~= parts[0]);
            }
            i += 1;
        }
        assert(parts.take(8) =~= parts);
        out
    }

    /// Reads an address from text: eight components with colons between
    /// them, each an optional `+` and then one or more hexadecimal digits of
    /// either case, with a value of at most `ffff`. The components are
    /// looked at in order, so an invalid one among the first eight is
    /// reported before a wrong number of them.
    pub fn from_str(s: &str) -> (r: Result<Ipv6Addr, ParseIpv6AddrErr>)
        ensures
            r == ipv6_from_text(s@),
    {
        let chars = chars_of(s);
        match parse_fields(chars.as_slice(), ':', 16, 0xffff, 8) {
            Ok(v) => {
                let ghost w = Seq::new(8, |k: int| v@[k] as int);
                assert(parsed(s@, ':', 16, 0xffff, 8) == Ok::<Seq<int>, FieldsError>(w));
                assert(w[0] == v@[0] && w[1] == v@[1] && w[2] == v@[2] && w[3] == v@[3] && w[4]
                    == v@[4] && w[5] == v@[5] && w[6] == v@[6] && w[7] == v@[7]);
                Ok(
                    Ipv6Addr(
                        v[0] as u16,
                        v[1] as u16,
                        v[2] as u16,
                        v[3] as u16,
                        v[4] as u16,
                        v[5] as u16,
                        v[6] as u16,
                        v[7] as u16,
                    ),
                )
            },
            Err(FieldsError::TooMany) => Err(ParseIpv6AddrErr::TooManyComponents),
            Err(FieldsError::TooFew) => Err(ParseIpv6AddrErr::TooFewComponents),
            Err(FieldsError::Invalid) => Err(ParseIpv6AddrErr::InvalidComponent),
        }
    }
}

impl From<[u16; 8]> for Ipv6Addr {
    fn from(addr: [u16; 8]) -> (r: Ipv6Addr) {
        Ipv6Addr(addr[0], addr[1], addr[2], addr[3], addr[4], addr[5], addr[6], addr[7])
    }
}

impl vstd::std_specs::convert::FromSpecImpl<[u16; 8]> for Ipv6Addr {
    open spec fn obeys_from_spec() -> bool {
        true
    }

    open spec fn from_spec(addr: [u16; 8]) -> Ipv6Addr {
        Ipv6Addr(addr[0], addr[1], addr[2], addr[3], addr[4], addr[5], addr[6], addr[7])
    }
}

impl From<Ipv6Addr> for [u16; 8] {
    fn from(addr: Ipv6Addr) -> (r: [u16; 8]) {
        addr.segments()
    }
}

impl vstd::std_specs::convert::FromSpecImpl<Ipv6Addr> for [u16; 8] {
    open spec fn obeys_from_spec() -> bool {
        true
    }

    open spec fn from_spec(addr: Ipv6Addr) -> [u16; 8] {
        [addr.0, addr.1, addr.2, addr.3, addr.4, addr.5, addr.6, addr.7]
    }
}

impl PartialEq<[u16; 8]> for Ipv6Addr {
    fn eq(&self, other: &[u16; 8]) -> (r: bool) {
        self.0 == other[0] && self.1 == other[1] && self.2 == other[2] && self.3 == other[3] && self.4 == other[4] && self.5 == other[5] && self.6 == other[6] && self.7 == other[7]
    }
}

impl vstd::std_specs::cmp::PartialEqSpecImpl<[u16; 8]> for Ipv6Addr {
    open spec fn obeys_eq_spec() -> bool {
        true
    }

    open spec fn eq_spec(&self, other: &[u16; 8]) -> bool {
        self.0 == other[0] && self.1 == other[1] && self.2 == other[2] && self.3 == other[3] && self.4 == other[4] && self.5 == other[5] && self.6 == other[6] && self.7 == other[7]
    }
}

impl core::str::FromStr for Ipv6Addr {
    type Err = ParseIpv6AddrErr;

    /// Reads an address from text, as the inherent `from_str` does.
    fn from_str(s: &str) -> (r: Result<Ipv6Addr, ParseIpv6AddrErr>)
        ensures
            r == ipv6_from_text(s@),
    {
        Ipv6Addr::from_str(s)
    }
}

impl Default for Ipv6Addr {
    fn default() -> (r: Ipv6Addr)
        ensures
            r == Ipv6Addr(0, 0, 0, 0, 0, 0, 0, 0),
    {
        Ipv6Addr(0, 0, 0, 0, 0, 0, 0, 0)
    }
}

impl ParseIpv6AddrErr {
    /// What went wrong, in words.
    pub fn description(&self) -> (r: &'static str)
        ensures
            r@ == match *self {
                ParseIpv6AddrErr::TooManyComponents => "Too many components in a MAC address string"@,
                ParseIpv6AddrErr::TooFewComponents => "Too few components in a MAC address string"@,
                ParseIpv6AddrErr::InvalidComponent => "Invalid component in a MAC address string"@,
            },
    {
        match *self {
            ParseIpv6AddrErr::TooManyComponents => "Too many components in a MAC address string",
            ParseIpv6AddrErr::TooFewComponents => "Too few components in a MAC address string",
            ParseIpv6AddrErr::InvalidComponent => "Invalid component in a MAC address string",
        }
    }
}

/// Reading the text of an address gives the address back.
pub proof fn lemma_ipv6_text_reads_back(a: Ipv6Addr)
    ensures
        ipv6_from_text(ipv6_text(a)) == Ok::<Ipv6Addr, ParseIpv6AddrErr>(a),
{
    let parts = ipv6_parts(a);
    lemma_hex_quad_reads_back(a.0 as int);
    lemma_hex_quad_reads_back(a.1 as int);
    lemma_hex_quad_reads_back(a.2 as int);
    lemma_hex_quad_reads_back(a.3 as int);
    lemma_hex_quad_reads_back(a.4 as int);
    lemma_hex_quad_reads_back(a.5 as int);
    lemma_hex_quad_reads_back(a.6 as int);
    lemma_hex_quad_reads_back(a.7 as int);
    let values = seq![
        a.0 as int,
        a.1 as int,
        a.2 as int,
        a.3 as int,
        a.4 as int,
        a.5 as int,
        a.6 as int,
        a.7 as int,
    ];
    lemma_parsed_joined(parts, values, ':', 16, 0xffff);
}

} // verus!
