//! Zero-copy views over fixed-layout network packets, with the address
//! types they expose and a small family of traits over byte inputs.

pub mod ethernet;
pub mod input;
pub mod ip4addr;
pub mod ip6addr;
pub mod ipaddr;
pub mod macaddr;
pub mod outcome;
pub mod packet;
pub mod text;

pub use crate::ethernet::{Ethernet, EthernetError, ETHERNET_HEADER_LEN};
pub use crate::input::{
    AsBytes, FindToken, InputIter, InputLength, InputTake, InputTakeAtPosition, InputTakeIter,
    Parser, Slice,
};
pub use crate::ip4addr::{Ipv4Addr, ParseIpv4AddrErr, IPV4_ADDR_LEN};
pub use crate::ip6addr::{Ipv6Addr, ParseIpv6AddrErr, IPV6_ADDR_LEN};
pub use crate::ipaddr::IpAddr;
pub use crate::macaddr::{MacAddr, ParseMacAddrErr, ETHER_ADDR_LEN};
pub use crate::outcome::{ErrMode, Error, ErrorKind, Finish, Needed, PResult, ParseError};
pub use crate::packet::{
    copy_prefix, FromPacket, MutPacketData, MutablePacket, Packet, PacketData, PacketSize,
    PrimitiveValues,
};
