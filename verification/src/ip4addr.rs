//! IPv4 addresses.

use crate::text::{
    chars_of, decimal, joined, lemma_decimal_reads_back, lemma_joined_take, lemma_parsed_joined,
    parse_fields, parsed, push_decimal, FieldsError,
};
use vstd::prelude::*;

verus! {

/// The number of octets in an IPv4 address.
pub const IPV4_ADDR_LEN: usize = 4;

/// An IPv4 address: four octets, most significant first.
#[derive(Clone, Copy, Debug, PartialEq, Eq, Structural, PartialOrd, Ord, Hash)]
pub struct Ipv4Addr(pub u8, pub u8, pub u8, pub u8);

/// Why a text is no IPv4 address.
#[derive(Clone, Copy, Debug, PartialEq, Eq, Structural)]
pub enum ParseIpv4AddrErr {
    /// The text has more than four components, as in `192.168.1.1.1`.
    TooManyComponents,
    /// The text has fewer than four components, as in `192.168`.
    TooFewComponents,
    /// A component is empty, no decimal number, or above 255, as in
    /// `192.168.2x.22`.
    InvalidComponent,
}

/// The four components of the text of `a`.
pub open spec fn ipv4_parts(a: Ipv4Addr) -> Seq<Seq<char>> {
    seq![decimal(a.0 as int), decimal(a.1 as int), decimal(a.2 as int), decimal(a.3 as int)]
}

/// The text of `a`: four decimal numbers without leading zeros, with dots
/// between them.
pub open spec fn ipv4_text(a: Ipv4Addr) -> Seq<char> {
    joined(ipv4_parts(a), '.')
}

/// The address that a text holds: four dot-separated decimal components,
/// each at most 255.
pub open spec fn ipv4_from_text(s: Seq<char>) -> Result<Ipv4Addr, ParseIpv4AddrErr> {
    match parsed(s, '.', 10, 255, 4) {
        Ok(v) => Ok(Ipv4Addr(v[0] as u8, v[1] as u8, v[2] as u8, v[3] as u8)),
        Err(FieldsError::TooMany) => Err(ParseIpv4AddrErr::TooManyComponents),
        Err(FieldsError::TooFew) => Err(ParseIpv4AddrErr::TooFewComponents),
        Err(FieldsError::Invalid) => Err(ParseIpv4AddrErr::InvalidComponent),
    }
}

impl Ipv4Addr {
    /// The address with the given octets.
    pub fn new(a: u8, b: u8, c: u8, d: u8) -> (r: Ipv4Addr)
        ensures
            r == Ipv4Addr(a, b, c, d),
    {
        Ipv4Addr(a, b, c, d)
    }

    /// The all-zero address.
    pub fn zero() -> (r: Ipv4Addr)
        ensures
            r == Ipv4Addr(0, 0, 0, 0),
    {
        Ipv4Addr(0, 0, 0, 0)
    }

    /// The four octets, most significant first.
    pub fn octets(&self) -> (r: [u8; 4])
        ensures
            r@ == seq![self.0, self.1, self.2, self.3],
    {
        let r = [self.0, self.1, self.2, self.3];
        assert(r@ =~= seq![self.0, self.1, self.2, self.3]);
        r
    }

    /// Writes the address as text.
    pub fn to_strint(&self) -> (r: String)
        ensures
            r@ == ipv4_text(*self),
    {
        let o = self.octets();
        let ghost parts = ipv4_parts(*self);
        let mut out = String::new();
        let mut i: usize = 0;
        while i < 4
            invariant
                i <= 4,
                parts == ipv4_parts(*self),
                o@ == seq![self.0, self.1, self.2, self.3],
                out@ == joined(parts.take(i as int), '.'),
            decreases 4 - i,
        {
            if i > 0 {
                out.push('.');
            }
            push_decimal(&mut out, o[i]);
            proof {
                lemma_joined_take(parts, i as int, '.');
                assert(parts[i as int] == decimal(o@[i as int] as int));
                assert(Seq::<char>::empty() + parts[0] =~= parts[0]);
            }
            i += 1;
        }
        assert(parts.take(4) =~= parts);
        out
    }

    /// Writes the address as text.
    pub fn to_string(&self) -> (r: String)
        ensures
            r@ == ipv4_text(*self),
    {
        self.to_strint()
    }

    /// Reads an address from text: four components with dots between them,
    /// each an optional `+` and then one or more decimal digits, with a
    /// value of at most 255. The components are looked at in order, so an
    /// invalid one among the first four is reported before a wrong number
    /// of them.
    pub fn from_str(s: &str) -> (r: Result<Ipv4Addr, ParseIpv4AddrErr>)
        ensures
            r == ipv4_from_text(s@),
    {
        let chars = chars_of(s);
        match parse_fields(chars.as_slice(), '.', 10, 255, 4) {
            Ok(v) => {
                let ghost w = Seq::new(4, |k: int| v@[k] as int);
                assert(parsed(s@, '.', 10, 255, 4) == Ok::<Seq<int>, FieldsError>(w));
                assert(w[0] == v@[0] && w[1] == v@[1] && w[2] == v@[2] && w[3] == v@[3]);
                Ok(Ipv4Addr(v[0] as u8, v[1] as u8, v[2] as u8, v[3] as u8))
            },
            Err(FieldsError::TooMany) => Err(ParseIpv4AddrErr::TooManyComponents),
            Err(FieldsError::TooFew) => Err(ParseIpv4AddrErr::TooFewComponents),
            Err(FieldsError::Invalid) => Err(ParseIpv4AddrErr::InvalidComponent),
        }
    }
}

impl From<[u8; 4]> for Ipv4Addr {
    fn from(addr: [u8; 4]) -> (r: Ipv4Addr) {
        Ipv4Addr(addr[0], addr[1], addr[2], addr[3])
    }
}

impl vstd::std_specs::convert::FromSpecImpl<[u8; 4]> for Ipv4Addr {
    open spec fn obeys_from_spec() -> bool {
        true
    }

    open spec fn from_spec(addr: [u8; 4]) -> Ipv4Addr {
        Ipv4Addr(addr[0], addr[1], addr[2], addr[3])
    }
}

impl From<Ipv4Addr> for [u8; 4] {
    fn from(addr: Ipv4Addr) -> (r: [u8; 4]) {
        addr.octets()
    }
}

impl vstd::std_specs::convert::FromSpecImpl<Ipv4Addr> for [u8; 4] {
    open spec fn obeys_from_spec() -> bool {
        true
    }

    open spec fn from_spec(addr: Ipv4Addr) -> [u8; 4] {
        [addr.0, addr.1, addr.2, addr.3]
    }
}

impl PartialEq<[u8; 4]> for Ipv4Addr {
    fn eq(&self, other: &[u8; 4]) -> (r: bool) {
        self.0 == other[0] && self.1 == other[1] && self.2 == other[2] && self.3 == other[3]
    }
}

impl vstd::std_specs::cmp::PartialEqSpecImpl<[u8; 4]> for Ipv4Addr {
    open spec fn obeys_eq_spec() -> bool {
        true
    }

    open spec fn eq_spec(&self, other: &[u8; 4]) -> bool {
        self.0 == other[0] && self.1 == other[1] && self.2 == other[2] && self.3 == other[3]
    }
}

impl core::str::FromStr for Ipv4Addr {
    type Err = ParseIpv4AddrErr;

    /// Reads an address from text, as the inherent `from_str` does.
    fn from_str(s: &str) -> (r: Result<Ipv4Addr, ParseIpv4AddrErr>)
        ensures
            r == ipv4_from_text(s@),
    {
        Ipv4Addr::from_str(s)
    }
}

impl Default for Ipv4Addr {
    fn default() -> (r: Ipv4Addr)
        ensures
            r == Ipv4Addr(0, 0, 0, 0),
    {
        Ipv4Addr(0, 0, 0, 0)
    }
}

impl ParseIpv4AddrErr {
    /// What went wrong, in words.
    pub fn description(&self) -> (r: &'static str)
        ensures
            r@ == match *self {
                ParseIpv4AddrErr::TooManyComponents => "Too many components in a MAC address string"@,
                ParseIpv4AddrErr::TooFewComponents => "Too few components in a MAC address string"@,
                ParseIpv4AddrErr::InvalidComponent => "Invalid component in a MAC address string"@,
            },
    {
        match *self {
            ParseIpv4AddrErr::TooManyComponents => "Too many components in a MAC address string",
            ParseIpv4AddrErr::TooFewComponents => "Too few components in a MAC address string",
            ParseIpv4AddrErr::InvalidComponent => "Invalid component in a MAC address string",
        }
    }
}

/// Reading the text of an address gives the address back.
pub proof fn lemma_ipv4_text_reads_back(a: Ipv4Addr)
    ensures
        ipv4_from_text(ipv4_text(a)) == Ok::<Ipv4Addr, ParseIpv4AddrErr>(a),
{
    let parts = ipv4_parts(a);
    lemma_decimal_reads_back(a.0 as int);
    lemma_decimal_reads_back(a.1 as int);
    lemma_decimal_reads_back(a.2 as int);
    lemma_decimal_reads_back(a.3 as int);
    let values = seq![a.0 as int, a.1 as int, a.2 as int, a.3 as int];
    lemma_parsed_joined(parts, values, '.', 10, 255);
}

} // verus!
