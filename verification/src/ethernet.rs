//! A read-only view of an Ethernet frame.

use crate::macaddr::MacAddr;
use vstd::prelude::*;
use vstd::slice::slice_subrange;

verus! {

/// The length of the Ethernet header: two addresses and the EtherType.
pub const ETHERNET_HEADER_LEN: usize = 14;

/// The fields of an Ethernet frame, each a window into the frame's buffer.
#[derive(Copy, Clone, Debug, PartialEq, Eq, PartialOrd, Ord, Hash)]
pub struct Ethernet<'a> {
    /// Bytes 0 to 5: the destination address.
    pub destination: &'a [u8],
    /// Bytes 6 to 11: the source address.
    pub source: &'a [u8],
    /// Bytes 12 and 13: the EtherType, most significant byte first.
    pub ether_type: &'a [u8],
    /// Byte 14 and what follows.
    pub payload: &'a [u8],
}

/// Why a buffer holds no Ethernet frame.
#[derive(Copy, Clone, Debug, PartialEq, Eq, Structural)]
pub enum EthernetError {
    /// The buffer is shorter than the header.
    TooShort,
}

/// The address that six bytes stand for.
pub open spec fn mac_of(b: Seq<u8>) -> MacAddr
    recommends
        b.len() == 6,
{
    MacAddr(b[0], b[1], b[2], b[3], b[4], b[5])
}

/// The number that two bytes stand for, most significant first.
pub open spec fn be16(b: Seq<u8>) -> int
    recommends
        b.len() == 2,
{
    b[0] * 256 + b[1]
}

impl<'a> Ethernet<'a> {
    /// Each header field has the width that the frame format gives it.
    pub open spec fn well_formed(&self) -> bool {
        &&& self.destination@.len() == 6
        &&& self.source@.len() == 6
        &&& self.ether_type@.len() == 2
    }

    /// The view is made of the windows of `frame`.
    pub open spec fn views(&self, frame: Seq<u8>) -> bool {
        &&& self.destination@ == frame.subrange(0, 6)
        &&& self.source@ == frame.subrange(6, 12)
        &&& self.ether_type@ == frame.subrange(12, 14)
        &&& self.payload@ == frame.subrange(14, frame.len() as int)
    }

    /// Views `i` as an Ethernet frame, if it is long enough to hold the
    /// header.
    pub fn new(i: &'a [u8]) -> (r: Result<Ethernet<'a>, EthernetError>)
        ensures
            r is Ok <==> i@.len() >= 14,
            r is Ok ==> r->Ok_0.views(i@) && r->Ok_0.well_formed(),
            r is Err ==> r->Err_0 == EthernetError::TooShort,
    {
        if i.len() < ETHERNET_HEADER_LEN {
            return Err(EthernetError::TooShort);
        }
        let destination = slice_subrange(i, 0, 6);
        let source = slice_subrange(i, 6, 12);
        let ether_type = slice_subrange(i, 12, 14);
        let payload = slice_subrange(i, 14, i.len());
        Ok(Ethernet { destination, source, ether_type, payload })
    }

    /// The destination address.
    pub fn get_destination(&self) -> (r: MacAddr)
        requires
            self.well_formed(),
        ensures
            r == mac_of(self.destination@),
    {
        MacAddr::new(
            self.destination[0],
            self.destination[1],
            self.destination[2],
            self.destination[3],
            self.destination[4],
            self.destination[5],
        )
    }

    /// The source address.
    pub fn get_source(&self) -> (r: MacAddr)
        requires
            self.well_formed(),
        ensures
            r == mac_of(self.source@),
    {
        MacAddr::new(
            self.source[0],
            self.source[1],
            self.source[2],
            self.source[3],
            self.source[4],
            self.source[5],
        )
    }

    /// The EtherType.
    pub fn get_ether_type(&self) -> (r: u16)
        requires
            self.well_formed(),
        ensures
            r == be16(self.ether_type@),
    {
        let hi: u16 = self.ether_type[0] as u16;
        let lo: u16 = self.ether_type[1] as u16;
        hi * 256 + lo
    }

    /// The payload.
    pub fn get_payload(&self) -> (r: &[u8])
        ensures
            r@ == self.payload@,
    {
        self.payload
    }
}

impl<'a> Default for Ethernet<'a> {
    /// The frame with all-zero header fields and no payload.
    fn default() -> (r: Ethernet<'a>)
        ensures
            r.well_formed(),
            r.destination@ == seq![0u8, 0u8, 0u8, 0u8, 0u8, 0u8],
            r.source@ == seq![0u8, 0u8, 0u8, 0u8, 0u8, 0u8],
            r.ether_type@ == seq![0u8, 0u8],
            r.payload@ == Seq::<u8>::empty(),
    {
        let zeros: &'a [u8; 6] = &[0u8; 6];
        let pair: &'a [u8; 2] = &[0u8; 2];
        let none: &'a [u8; 0] = &[0u8; 0];
        let r = Ethernet {
            destination: zeros.as_slice(),
            source: zeros.as_slice(),
            ether_type: pair.as_slice(),
            payload: none.as_slice(),
        };
        assert(r.destination@ =~= seq![0u8, 0u8, 0u8, 0u8, 0u8, 0u8]);
        assert(r.source@ =~= seq![0u8, 0u8, 0u8, 0u8, 0u8, 0u8]);
        assert(r.ether_type@ =~= seq![0u8, 0u8]);
        assert(r.payload@ =~= Seq::<u8>::empty());
        r
    }
}

} // verus!
