//! How a packet holds its bytes, and what a packet can do.

use crate::ip4addr::Ipv4Addr;
use crate::ip6addr::Ipv6Addr;
use crate::macaddr::MacAddr;
use vstd::prelude::*;

verus! {

/// What `copy_prefix` leaves in the destination: the source, then what the
/// destination held beyond the source's length.
pub open spec fn overwritten(dst: Seq<u8>, src: Seq<u8>) -> Seq<u8> {
    src + dst.subrange(src.len() as int, dst.len() as int)
}

/// After `src` was copied over the start of `dst`, the buffer has the length
/// it had, its first bytes are those of `src`, and the bytes beyond the
/// length of `src` are what they were.
pub proof fn lemma_overwritten(dst: Seq<u8>, src: Seq<u8>)
    requires
        dst.len() >= src.len(),
    ensures
        overwritten(dst, src).len() == dst.len(),
        overwritten(dst, src).subrange(0, src.len() as int) == src,
        forall|i: int| src.len() <= i < dst.len() ==> overwritten(dst, src)[i] == dst[i],
{
    assert(overwritten(dst, src).subrange(0, src.len() as int) =~= src);
}

/// Copies `src` over the start of `dst`; the rest of `dst` stays.
pub fn copy_prefix(dst: &mut [u8], src: &[u8])
    requires
        old(dst)@.len() >= src@.len(),
    ensures
        final(dst)@ == overwritten(old(dst)@, src@),
{
    let n: usize = src.len();
    let mut i: usize = 0;
    while i < n
        invariant
            i <= n == src@.len(),
            dst@.len() == old(dst)@.len(),
            n <= dst@.len(),
            forall|k: int| 0 <= k < i ==> dst@[k] == src@[k],
            forall|k: int| i <= k < dst@.len() ==> dst@[k] == old(dst)@[k],
        decreases n - i,
    {
        dst[i] = src[i];
        i += 1;
    }
    assert(dst@ =~= overwritten(old(dst)@, src@));
}

/// A network packet that can be read.
pub trait Packet {
    /// The bytes of the whole buffer.
    spec fn bytes(&self) -> Seq<u8>;

    /// Where in the buffer the payload begins and ends.
    spec fn payload_range(&self) -> (int, int);

    /// The whole buffer.
    fn packet(&self) -> (r: &[u8])
        ensures
            r@ == self.bytes(),
    ;

    /// The part of the buffer after the header.
    fn payload(&self) -> (r: &[u8])
        ensures
            0 <= self.payload_range().0 <= self.payload_range().1 <= self.bytes().len(),
            r@ == self.bytes().subrange(self.payload_range().0, self.payload_range().1),
    ;
}

/// A network packet that can be written.
pub trait MutablePacket: Packet {
    /// The whole buffer, to write to.
    fn packet_mut(&mut self) -> (r: &mut [u8])
        ensures
            r@ == old(self).bytes(),
            final(self).bytes() == final(r)@,
    ;

    /// The part of the buffer after the header, to write to.
    fn payload_mut(&mut self) -> (r: &mut [u8])
        ensures
            0 <= old(self).payload_range().0 <= old(self).payload_range().1 <= old(
                self,
            ).bytes().len(),
            r@ == old(self).bytes().subrange(
                old(self).payload_range().0,
                old(self).payload_range().1,
            ),
            final(self).bytes() == old(self).bytes().subrange(0, old(self).payload_range().0)
                + final(r)@ + old(self).bytes().subrange(
                old(self).payload_range().1,
                old(self).bytes().len() as int,
            ),
    ;

    /// Overwrites the start of this packet's buffer with the buffer of
    /// `other`. The buffer keeps its length; `other` must fit into it.
    fn clone_from<T: Packet>(&mut self, other: &T)
        requires
            old(self).bytes().len() >= other.bytes().len(),
        ensures
            final(self).bytes() == overwritten(old(self).bytes(), other.bytes()),
    {
        copy_prefix(self.packet_mut(), other.packet());
    }
}

/// A packet in wire format that can be turned into a value of its own.
pub trait FromPacket: Packet {
    /// The type of the value.
    type T;

    /// The value that the packet's bytes stand for.
    fn from_packet(&self) -> Self::T;
}

/// A packet whose size is computed, and may differ from the length of its
/// buffer.
pub trait PacketSize: Packet {
    /// The computed size of the packet.
    fn packet_size(&self) -> usize;
}

/// A type that is made of a few primitive values.
pub trait PrimitiveValues {
    /// A tuple of primitive types.
    type T;

    /// The value's parts.
    spec fn primitive_values(&self) -> Self::T;

    /// The value as a tuple of its parts.
    fn to_primitive_values(&self) -> (r: Self::T)
        ensures
            r == self.primitive_values(),
    ;
}

impl PrimitiveValues for MacAddr {
    type T = (u8, u8, u8, u8, u8, u8);

    open spec fn primitive_values(&self) -> (u8, u8, u8, u8, u8, u8) {
        (self.0, self.1, self.2, self.3, self.4, self.5)
    }

    fn to_primitive_values(&self) -> (r: (u8, u8, u8, u8, u8, u8)) {
        (self.0, self.1, self.2, self.3, self.4, self.5)
    }
}

impl PrimitiveValues for Ipv4Addr {
    type T = (u8, u8, u8, u8);

    open spec fn primitive_values(&self) -> (u8, u8, u8, u8) {
        (self.0, self.1, self.2, self.3)
    }

    fn to_primitive_values(&self) -> (r: (u8, u8, u8, u8)) {
        let octets = self.octets();
        (octets[0], octets[1], octets[2], octets[3])
    }
}

impl PrimitiveValues for Ipv6Addr {
    type T = (u16, u16, u16, u16, u16, u16, u16, u16);

    open spec fn primitive_values(&self) -> (u16, u16, u16, u16, u16, u16, u16, u16) {
        (self.0, self.1, self.2, self.3, self.4, self.5, self.6, self.7)
    }

    fn to_primitive_values(&self) -> (r: (u16, u16, u16, u16, u16, u16, u16, u16)) {
        let segments = self.segments();
        (
            segments[0],
            segments[1],
            segments[2],
            segments[3],
            segments[4],
            segments[5],
            segments[6],
            segments[7],
        )
    }
}

/// Packet data that is read only.
#[derive(PartialEq)]
pub enum PacketData<'p> {
    /// The packet owns its bytes.
    Owned(Vec<u8>),
    /// The packet borrows its bytes.
    Borrowed(&'p [u8]),
}

/// Packet data that can be written.
#[derive(PartialEq)]
pub enum MutPacketData<'p> {
    /// The packet owns its bytes.
    Owned(Vec<u8>),
    /// The packet borrows its bytes, and nothing else can reach them
    /// meanwhile.
    Borrowed(&'p mut [u8]),
}

impl<'p> View for PacketData<'p> {
    type V = Seq<u8>;

    open spec fn view(&self) -> Seq<u8> {
        match *self {
            PacketData::Owned(v) => v@,
            PacketData::Borrowed(s) => s@,
        }
    }
}

impl<'p> View for MutPacketData<'p> {
    type V = Seq<u8>;

    open spec fn view(&self) -> Seq<u8> {
        match *self {
            MutPacketData::Owned(v) => v@,
            MutPacketData::Borrowed(s) => s@,
        }
    }
}

impl<'p> PacketData<'p> {
    /// The bytes of the packet.
    pub fn as_slice(&self) -> (r: &[u8])
        ensures
            r@ == self@,
    {
        match self {
            PacketData::Owned(data) => data.as_slice(),
            PacketData::Borrowed(data) => data,
        }
    }

    /// The same data: it is read only already.
    pub fn to_immutable(self) -> (r: PacketData<'p>)
        ensures
            r == self,
    {
        self
    }

    /// The number of bytes.
    pub fn len(&self) -> (r: usize)
        ensures
            r == self@.len(),
    {
        self.as_slice().len()
    }

    /// The byte at `index`.
    pub fn index(&self, index: usize) -> (r: u8)
        requires
            index < self@.len(),
        ensures
            r == self@[index as int],
    {
        self.as_slice()[index]
    }

    /// The bytes from `start` up to, not including, `end`.
    pub fn index_range(&self, start: usize, end: usize) -> (r: &[u8])
        requires
            start <= end <= self@.len(),
        ensures
            r@ == self@.subrange(start as int, end as int),
    {
        vstd::slice::slice_subrange(self.as_slice(), start, end)
    }

    /// The bytes up to, not including, `end`.
    pub fn index_range_to(&self, end: usize) -> (r: &[u8])
        requires
            end <= self@.len(),
        ensures
            r@ == self@.subrange(0, end as int),
    {
        self.index_range(0, end)
    }

    /// The bytes from `start` on.
    pub fn index_range_from(&self, start: usize) -> (r: &[u8])
        requires
            start <= self@.len(),
        ensures
            r@ == self@.subrange(start as int, self@.len() as int),
    {
        self.index_range(start, self.len())
    }
}

impl<'p> MutPacketData<'p> {
    /// The bytes of the packet.
    pub fn as_slice(&self) -> (r: &[u8])
        ensures
            r@ == self@,
    {
        match self {
            MutPacketData::Owned(data) => data.as_slice(),
            MutPacketData::Borrowed(data) => data,
        }
    }

    /// The bytes of the packet, to write to.
    pub fn as_mut_slice(&mut self) -> (r: &mut [u8])
        ensures
            r@ == old(self)@,
            final(self)@ == final(r)@,
            (*final(self) is Owned) == (*old(self) is Owned),
    {
        match self {
            MutPacketData::Owned(data) => data.as_mut_slice(),
            MutPacketData::Borrowed(data) => data,
        }
    }

    /// The same bytes, held the same way, read only from now on.
    pub fn to_immutable(self) -> (r: PacketData<'p>)
        ensures
            r@ == self@,
            r is Owned == self is Owned,
    {
        match self {
            MutPacketData::Owned(data) => PacketData::Owned(data),
            MutPacketData::Borrowed(data) => PacketData::Borrowed(data),
        }
    }

    /// The number of bytes.
    pub fn len(&self) -> (r: usize)
        ensures
            r == self@.len(),
    {
        self.as_slice().len()
    }

    /// The byte at `index`.
    pub fn index(&self, index: usize) -> (r: u8)
        requires
            index < self@.len(),
        ensures
            r == self@[index as int],
    {
        self.as_slice()[index]
    }

    /// The bytes from `start` up to, not including, `end`.
    pub fn index_range(&self, start: usize, end: usize) -> (r: &[u8])
        requires
            start <= end <= self@.len(),
        ensures
            r@ == self@.subrange(start as int, end as int),
    {
        vstd::slice::slice_subrange(self.as_slice(), start, end)
    }

    /// The bytes up to, not including, `end`.
    pub fn index_range_to(&self, end: usize) -> (r: &[u8])
        requires
            end <= self@.len(),
        ensures
            r@ == self@.subrange(0, end as int),
    {
        self.index_range(0, end)
    }

    /// The bytes from `start` on.
    pub fn index_range_from(&self, start: usize) -> (r: &[u8])
        requires
            start <= self@.len(),
        ensures
            r@ == self@.subrange(start as int, self@.len() as int),
    {
        self.index_range(start, self.len())
    }

    /// The byte at `index`, to write to.
    pub fn index_mut(&mut self, index: usize) -> (r: &mut u8)
        requires
            index < old(self)@.len(),
        ensures
            *r == old(self)@[index as int],
            final(self)@ == old(self)@.update(index as int, *final(r)),
    {
        &mut self.as_mut_slice()[index]
    }

    /// The bytes from `start` up to, not including, `end`, to write to.
    pub fn index_range_mut(&mut self, start: usize, end: usize) -> (r: &mut [u8])
        requires
            start <= end <= old(self)@.len(),
        ensures
            r@ == old(self)@.subrange(start as int, end as int),
            final(self)@ == old(self)@.subrange(0, start as int) + final(r)@ + old(self)@.subrange(
                end as int,
                old(self)@.len() as int,
            ),
    {
        let whole = self.as_mut_slice();
        let (_, tail) = whole.split_at_mut(start);
        let (middle, _) = tail.split_at_mut(end - start);
        proof {
            let b = old(self)@;
            assert(middle@ =~= b.subrange(start as int, end as int));
            assert(b.subrange(start as int, b.len() as int).subrange(
                end - start,
                b.len() - start,
            ) =~= b.subrange(end as int, b.len() as int));
        }
        middle
    }

    /// The bytes up to, not including, `end`, to write to.
    pub fn index_range_to_mut(&mut self, end: usize) -> (r: &mut [u8])
        requires
            end <= old(self)@.len(),
        ensures
            r@ == old(self)@.subrange(0, end as int),
            final(self)@ == final(r)@ + old(self)@.subrange(end as int, old(self)@.len() as int),
    {
        let (head, _) = self.as_mut_slice().split_at_mut(end);
        head
    }

    /// The bytes from `start` on, to write to.
    pub fn index_range_from_mut(&mut self, start: usize) -> (r: &mut [u8])
        requires
            start <= old(self)@.len(),
        ensures
            r@ == old(self)@.subrange(start as int, old(self)@.len() as int),
            final(self)@ == old(self)@.subrange(0, start as int) + final(r)@,
    {
        let (_, tail) = self.as_mut_slice().split_at_mut(start);
        tail
    }
}

/// Raw packet data is a packet without a header: all of it is payload.
impl<'p> Packet for PacketData<'p> {
    open spec fn bytes(&self) -> Seq<u8> {
        self@
    }

    open spec fn payload_range(&self) -> (int, int) {
        (0, self@.len() as int)
    }

    fn packet(&self) -> (r: &[u8]) {
        self.as_slice()
    }

    fn payload(&self) -> (r: &[u8]) {
        let r = self.as_slice();
        assert(r@ =~= self@.subrange(0, self@.len() as int));
        r
    }
}

/// Raw packet data is a packet without a header: all of it is payload.
impl<'p> Packet for MutPacketData<'p> {
    open spec fn bytes(&self) -> Seq<u8> {
        self@
    }

    open spec fn payload_range(&self) -> (int, int) {
        (0, self@.len() as int)
    }

    fn packet(&self) -> (r: &[u8]) {
        self.as_slice()
    }

    fn payload(&self) -> (r: &[u8]) {
        let r = self.as_slice();
        assert(r@ =~= self@.subrange(0, self@.len() as int));
        r
    }
}

impl<'p> MutablePacket for MutPacketData<'p> {
    fn packet_mut(&mut self) -> (r: &mut [u8]) {
        self.as_mut_slice()
    }

    fn payload_mut(&mut self) -> (r: &mut [u8]) {
        let r = self.as_mut_slice();
        proof {
            let b = old(self)@;
            assert(r@ =~= b.subrange(0, b.len() as int));
            assert(b.subrange(0, 0) + final(r)@ + b.subrange(b.len() as int, b.len() as int)
                =~= final(r)@);
        }
        r
    }
}

} // verus!
