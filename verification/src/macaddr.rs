//! Link-layer (MAC) addresses.

use crate::text::{
    chars_of, component_value, fields, hex_pair, is_lower_hex, joined, lemma_parsed_joined,
    lemma_hex_pair_of_value, lemma_hex_pair_reads_back, lemma_joined_fields, lemma_joined_take,
    parse_fields, parsed, push_hex_pair, valid_component, FieldsError,
};
use vstd::prelude::*;

verus! {

/// The number of octets in a link-layer address.
pub const ETHER_ADDR_LEN: usize = 6;

/// A link-layer address: six octets, in the order in which they are sent.
#[derive(Clone, Copy, Debug, PartialEq, Eq, Structural, PartialOrd, Ord, Hash)]
pub struct MacAddr(pub u8, pub u8, pub u8, pub u8, pub u8, pub u8);

/// Why a text is no link-layer address.
#[derive(Clone, Copy, Debug, PartialEq, Eq, Structural)]
pub enum ParseMacAddrErr {
    /// The text has more than six components.
    TooManyComponents,
    /// The text has fewer than six components.
    TooFewComponents,
    /// A component is empty, no hexadecimal number, or above `ff`.
    InvalidComponent,
}

/// The six components of the text of `a`.
pub open spec fn mac_parts(a: MacAddr) -> Seq<Seq<char>> {
    seq![
        hex_pair(a.0 as int),
        hex_pair(a.1 as int),
        hex_pair(a.2 as int),
        hex_pair(a.3 as int),
        hex_pair(a.4 as int),
        hex_pair(a.5 as int),
    ]
}

/// The text of `a`: six pairs of lower-case hexadecimal digits with colons
/// between them.
pub open spec fn mac_text(a: MacAddr) -> Seq<char> {
    joined(mac_parts(a), ':')
}

/// The address that a text holds: six colon-separated hexadecimal
/// components, each at most `ff`.
pub open spec fn mac_from_text(s: Seq<char>) -> Result<MacAddr, ParseMacAddrErr> {
    match parsed(s, ':', 16, 255, 6) {
        Ok(v) => Ok(
            MacAddr(v[0] as u8, v[1] as u8, v[2] as u8, v[3] as u8, v[4] as u8, v[5] as u8),
        ),
        Err(FieldsError::TooMany) => Err(ParseMacAddrErr::TooManyComponents),
        Err(FieldsError::TooFew) => Err(ParseMacAddrErr::TooFewComponents),
        Err(FieldsError::Invalid) => Err(ParseMacAddrErr::InvalidComponent),
    }
}

/// A text in canonical form: six components of exactly two lower-case
/// hexadecimal digits each.
pub open spec fn mac_canonical(s: Seq<char>) -> bool {
    let f = fields(s, ':');
    &&& f.len() == 6
    &&& forall|k: int|
        0 <= k < 6 ==> (#[trigger] f[k]).len() == 2 && is_lower_hex(f[k][0]) && is_lower_hex(
            f[k][1],
        )
}

impl MacAddr {
    /// The address with the given octets.
    pub fn new(a: u8, b: u8, c: u8, d: u8, e: u8, f: u8) -> (r: MacAddr)
        ensures
            r == MacAddr(a, b, c, d, e, f),
    {
        MacAddr(a, b, c, d, e, f)
    }

    /// The all-zero address.
    pub fn zero() -> (r: MacAddr)
        ensures
            r == MacAddr(0, 0, 0, 0, 0, 0),
    {
        MacAddr(0, 0, 0, 0, 0, 0)
    }

    /// The six octets, first sent first.
    pub fn octets(&self) -> (r: [u8; 6])
        ensures
            r@ == seq![self.0, self.1, self.2, self.3, self.4, self.5],
    {
        let r = [self.0, self.1, self.2, self.3, self.4, self.5];
        assert(r@ =~= seq![self.0, self.1, self.2, self.3, self.4, self.5]);
        r
    }

    /// Writes the address as text.
    pub fn to_string(&self) -> (r: String)
        ensures
            r@ == mac_text(*self),
    {
        let o = self.octets();
        let ghost parts = mac_parts(*self);
        let mut out = String::new();
        let mut i: usize = 0;
        while i < 6
            invariant
                i <= 6,
                parts == mac_parts(*self),
                o@ == seq![self.0, self.1, self.2, self.3, self.4, self.5],
                out@ == joined(parts.take(i as int), ':'),
            decreases 6 - i,
        {
            if i > 0 {
                out.push(':');
            }
            push_hex_pair(&mut out, o[i]);
            proof {
                lemma_joined_take(parts, i as int, ':');
                assert(parts[i as int] == hex_pair(o@[i as int] as int));
                assert(Seq::<char>::empty() + parts[0] =~= parts[0]);
            }
            i += 1;
        }
        assert(parts.take(6) =~= parts);
        out
    }

    /// Reads an address from text: six components with colons between
    /// them, each an optional `+` and then one or more hexadecimal digits of
    /// either case, with a value of at most `ff`. The components are looked
    /// at in order, so an invalid one among the first six is reported before
    /// a wrong number of them.
    pub fn from_str(s: &str) -> (r: Result<MacAddr, ParseMacAddrErr>)
        ensures
            r == mac_from_text(s@),
    {
        let chars = chars_of(s);
        match parse_fields(chars.as_slice(), ':', 16, 255, 6) {
            Ok(v) => {
                let ghost w = Seq::new(6, |k: int| v@[k] as int);
                assert(parsed(s@, ':', 16, 255, 6) == Ok::<Seq<int>, FieldsError>(w));
                assert(w[0] == v@[0] && w[1] == v@[1] && w[2] == v@[2] && w[3] == v@[3] && w[4]
                    == v@[4] && w[5] == v@[5]);
                Ok(
                    MacAddr(
                        v[0] as u8,
                        v[1] as u8,
                        v[2] as u8,
                        v[3] as u8,
                        v[4] as u8,
                        v[5] as u8,
                    ),
                )
            },
            Err(FieldsError::TooMany) => Err(ParseMacAddrErr::TooManyComponents),
            Err(FieldsError::TooFew) => Err(ParseMacAddrErr::TooFewComponents),
            Err(FieldsError::Invalid) => Err(ParseMacAddrErr::InvalidComponent),
        }
    }
}

impl From<[u8; 6]> for MacAddr {
    fn from(addr: [u8; 6]) -> (r: MacAddr) {
        MacAddr(addr[0], addr[1], addr[2], addr[3], addr[4], addr[5])
    }
}

impl vstd::std_specs::convert::FromSpecImpl<[u8; 6]> for MacAddr {
    open spec fn obeys_from_spec() -> bool {
        true
    }

    open spec fn from_spec(addr: [u8; 6]) -> MacAddr {
        MacAddr(addr[0], addr[1], addr[2], addr[3], addr[4], addr[5])
    }
}

impl From<MacAddr> for [u8; 6] {
    fn from(addr: MacAddr) -> (r: [u8; 6]) {
        addr.octets()
    }
}

impl vstd::std_specs::convert::FromSpecImpl<MacAddr> for [u8; 6] {
    open spec fn obeys_from_spec() -> bool {
        true
    }

    open spec fn from_spec(addr: MacAddr) -> [u8; 6] {
        [addr.0, addr.1, addr.2, addr.3, addr.4, addr.5]
    }
}

impl PartialEq<[u8; 6]> for MacAddr {
    fn eq(&self, other: &[u8; 6]) -> (r: bool) {
        self.0 == other[0] && self.1 == other[1] && self.2 == other[2] && self.3 == other[3]
            && self.4 == other[4] && self.5 == other[5]
    }
}

impl vstd::std_specs::cmp::PartialEqSpecImpl<[u8; 6]> for MacAddr {
    open spec fn obeys_eq_spec() -> bool {
        true
    }

    open spec fn eq_spec(&self, other: &[u8; 6]) -> bool {
        self.0 == other[0] && self.1 == other[1] && self.2 == other[2] && self.3 == other[3]
            && self.4 == other[4] && self.5 == other[5]
    }
}

impl core::str::FromStr for MacAddr {
    type Err = ParseMacAddrErr;

    /// Reads an address from text, as the inherent `from_str` does.
    fn from_str(s: &str) -> (r: Result<MacAddr, ParseMacAddrErr>)
        ensures
            r == mac_from_text(s@),
    {
        MacAddr::from_str(s)
    }
}

impl Default for MacAddr {
    fn default() -> (r: MacAddr)
        ensures
            r == MacAddr(0, 0, 0, 0, 0, 0),
    {
        MacAddr(0, 0, 0, 0, 0, 0)
    }
}

impl ParseMacAddrErr {
    /// What went wrong, in words.
    pub fn description(&self) -> (r: &'static str)
        ensures
            r@ == match *self {
                ParseMacAddrErr::TooManyComponents => "Too many components in a MAC address string"@,
                ParseMacAddrErr::TooFewComponents => "Too few components in a MAC address string"@,
                ParseMacAddrErr::InvalidComponent => "Invalid component in a MAC address string"@,
            },
    {
        match *self {
            ParseMacAddrErr::TooManyComponents => "Too many components in a MAC address string",
            ParseMacAddrErr::TooFewComponents => "Too few components in a MAC address string",
            ParseMacAddrErr::InvalidComponent => "Invalid component in a MAC address string",
        }
    }
}

/// Reading the text of an address gives the address back.
pub proof fn lemma_mac_text_reads_back(a: MacAddr)
    ensures
        mac_from_text(mac_text(a)) == Ok::<MacAddr, ParseMacAddrErr>(a),
{
    let parts = mac_parts(a);
    lemma_hex_pair_reads_back(a.0 as int);
    lemma_hex_pair_reads_back(a.1 as int);
    lemma_hex_pair_reads_back(a.2 as int);
    lemma_hex_pair_reads_back(a.3 as int);
    lemma_hex_pair_reads_back(a.4 as int);
    lemma_hex_pair_reads_back(a.5 as int);
    let values = seq![
        a.0 as int,
        a.1 as int,
        a.2 as int,
        a.3 as int,
        a.4 as int,
        a.5 as int,
    ];
    lemma_parsed_joined(parts, values, ':', 16, 255);
}

/// Writing the address that a canonical text holds gives the text back.
pub proof fn lemma_mac_canonical_round_trip(s: Seq<char>)
    requires
        mac_canonical(s),
    ensures
        mac_from_text(s) is Ok,
        mac_text(mac_from_text(s)->Ok_0) == s,
{
    let f = fields(s, ':');
    assert forall|k: int| 0 <= k < 6 implies valid_component(#[trigger] f[k], 16, 255)
        && hex_pair(component_value(f[k], 16)) == f[k] && 0 <= component_value(f[k], 16) <= 255 by {
        assert(f[k] =~= seq![f[k][0], f[k][1]]);
        lemma_hex_pair_of_value(f[k][0], f[k][1]);
    }
    let a = mac_from_text(s)->Ok_0;
    assert(mac_parts(a) =~= f);
    lemma_joined_fields(s, ':');
}

} // verus!
