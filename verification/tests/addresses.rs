use pnet_core::{
    IpAddr, Ipv4Addr, Ipv6Addr, MacAddr, ParseIpv4AddrErr, ParseIpv6AddrErr, ParseMacAddrErr,
    PrimitiveValues,
};

#[test]
fn mac_new_zero_octets() {
    let a = MacAddr::new(1, 2, 3, 4, 5, 6);
    assert_eq!(a, MacAddr(1, 2, 3, 4, 5, 6));
    assert_eq!(a.octets(), [1, 2, 3, 4, 5, 6]);
    assert_eq!(MacAddr::zero(), MacAddr(0, 0, 0, 0, 0, 0));
    assert_eq!(MacAddr::default(), MacAddr::zero());
}

#[test]
fn mac_to_string_is_lowercase_hex_pairs() {
    assert_eq!(MacAddr(0x01, 0x23, 0x45, 0x67, 0x89, 0xab).to_string(), "01:23:45:67:89:ab");
    assert_eq!(MacAddr::zero().to_string(), "00:00:00:00:00:00");
    assert_eq!(MacAddr(255, 255, 255, 255, 255, 255).to_string(), "ff:ff:ff:ff:ff:ff");
    assert_eq!(MacAddr(0x0a, 0xb0, 0xcd, 0xef, 0x10, 0x09).to_string(), "0a:b0:cd:ef:10:09");
}

#[test]
fn mac_from_str_reads_hex_components() {
    assert_eq!(
        MacAddr::from_str("01:23:45:67:89:ab"),
        Ok(MacAddr(0x01, 0x23, 0x45, 0x67, 0x89, 0xab))
    );
    assert_eq!(MacAddr::from_str("0:1:2:3:4:5"), Ok(MacAddr(0, 1, 2, 3, 4, 5)));
    assert_eq!(
        MacAddr::from_str("FF:Aa:bB:0c:0D:e"),
        Ok(MacAddr(0xff, 0xaa, 0xbb, 0x0c, 0x0d, 0x0e))
    );
    assert_eq!(MacAddr::from_str("+1:000ff:2:3:4:5"), Ok(MacAddr(1, 0xff, 2, 3, 4, 5)));
}

#[test]
fn mac_from_str_errors() {
    assert_eq!(MacAddr::from_str("0:1:2:3:4"), Err(ParseMacAddrErr::TooFewComponents));
    assert_eq!(MacAddr::from_str("0:1:2:3:4:5:6"), Err(ParseMacAddrErr::TooManyComponents));
    assert_eq!(MacAddr::from_str("0:1:2:3:4:5:"), Err(ParseMacAddrErr::TooManyComponents));
    assert_eq!(MacAddr::from_str("0:1:2:3:4:xx"), Err(ParseMacAddrErr::InvalidComponent));
    assert_eq!(MacAddr::from_str("0:1::3:4:5"), Err(ParseMacAddrErr::InvalidComponent));
    assert_eq!(MacAddr::from_str(""), Err(ParseMacAddrErr::InvalidComponent));
    assert_eq!(MacAddr::from_str("0:1:2:3:4:100"), Err(ParseMacAddrErr::InvalidComponent));
    assert_eq!(MacAddr::from_str("0:1:2:3:4:+"), Err(ParseMacAddrErr::InvalidComponent));
    assert_eq!(MacAddr::from_str("0:1:2:3:4:-5"), Err(ParseMacAddrErr::InvalidComponent));
    assert_eq!(MacAddr::from_str("0:1:2:3:4: 5"), Err(ParseMacAddrErr::InvalidComponent));
    assert_eq!(MacAddr::from_str("0:1:2:3:4:é"), Err(ParseMacAddrErr::InvalidComponent));
    assert_eq!(MacAddr::from_str("0:1:2"), Err(ParseMacAddrErr::TooFewComponents));
}

#[test]
fn mac_from_str_first_problem_in_order_decides() {
    assert_eq!(MacAddr::from_str("zz:1:2:3:4:5:6"), Err(ParseMacAddrErr::InvalidComponent));
    assert_eq!(MacAddr::from_str("0:1:2:3:4:5:zz"), Err(ParseMacAddrErr::TooManyComponents));
    assert_eq!(MacAddr::from_str("0:zz"), Err(ParseMacAddrErr::InvalidComponent));
}

#[test]
fn mac_text_round_trip() {
    for s in ["01:23:45:67:89:ab", "00:00:00:00:00:00", "ff:ff:ff:ff:ff:ff", "de:ad:be:ef:00:01"] {
        assert_eq!(MacAddr::from_str(s).unwrap().to_string(), s);
    }
    for a in [MacAddr(1, 2, 3, 4, 5, 6), MacAddr(0, 255, 16, 15, 160, 10)] {
        assert_eq!(MacAddr::from_str(&a.to_string()), Ok(a));
    }
}

#[test]
fn mac_error_descriptions() {
    assert_eq!(
        ParseMacAddrErr::TooManyComponents.description(),
        "Too many components in a MAC address string"
    );
    assert_eq!(
        ParseMacAddrErr::TooFewComponents.description(),
        "Too few components in a MAC address string"
    );
    assert_eq!(
        ParseMacAddrErr::InvalidComponent.description(),
        "Invalid component in a MAC address string"
    );
}

#[test]
fn ipv4_new_zero_octets() {
    let a = Ipv4Addr::new(192, 168, 1, 1);
    assert_eq!(a.octets(), [192, 168, 1, 1]);
    assert_eq!(Ipv4Addr::zero(), Ipv4Addr(0, 0, 0, 0));
    assert_eq!(Ipv4Addr::default(), Ipv4Addr::zero());
}

#[test]
fn ipv4_text_is_dotted_decimal() {
    assert_eq!(Ipv4Addr(192, 168, 1, 1).to_strint(), "192.168.1.1");
    assert_eq!(Ipv4Addr(0, 0, 0, 0).to_string(), "0.0.0.0");
    assert_eq!(Ipv4Addr(255, 100, 10, 9).to_string(), "255.100.10.9");
    assert_eq!(Ipv4Addr(101, 110, 99, 200).to_string(), "101.110.99.200");
}

#[test]
fn ipv4_from_str_reads_decimal_components() {
    assert_eq!(Ipv4Addr::from_str("192.168.1.1"), Ok(Ipv4Addr(192, 168, 1, 1)));
    assert_eq!(Ipv4Addr::from_str("0.0.0.0"), Ok(Ipv4Addr(0, 0, 0, 0)));
    assert_eq!(Ipv4Addr::from_str("255.255.255.255"), Ok(Ipv4Addr(255, 255, 255, 255)));
    assert_eq!(Ipv4Addr::from_str("010.+1.0.001"), Ok(Ipv4Addr(10, 1, 0, 1)));
}

#[test]
fn ipv4_from_str_errors() {
    assert_eq!(Ipv4Addr::from_str("192.168.1.1.1"), Err(ParseIpv4AddrErr::TooManyComponents));
    assert_eq!(Ipv4Addr::from_str("192.168"), Err(ParseIpv4AddrErr::TooFewComponents));
    assert_eq!(Ipv4Addr::from_str("192.168.2x.22"), Err(ParseIpv4AddrErr::InvalidComponent));
    assert_eq!(Ipv4Addr::from_str("192.168.1.256"), Err(ParseIpv4AddrErr::InvalidComponent));
    assert_eq!(Ipv4Addr::from_str("192.168.1.ff"), Err(ParseIpv4AddrErr::InvalidComponent));
    assert_eq!(Ipv4Addr::from_str("192.168..1"), Err(ParseIpv4AddrErr::InvalidComponent));
    assert_eq!(Ipv4Addr::from_str(""), Err(ParseIpv4AddrErr::InvalidComponent));
    assert_eq!(
        Ipv4Addr::from_str("1.2.3.99999999999999999999"),
        Err(ParseIpv4AddrErr::InvalidComponent)
    );
}

#[test]
fn ipv4_text_round_trip() {
    for a in [Ipv4Addr(192, 168, 1, 1), Ipv4Addr(0, 9, 10, 255), Ipv4Addr(100, 99, 200, 1)] {
        assert_eq!(Ipv4Addr::from_str(&a.to_string()), Ok(a));
    }
}

#[test]
fn ipv4_error_descriptions() {
    assert_eq!(
        ParseIpv4AddrErr::TooManyComponents.description(),
        "Too many components in a MAC address string"
    );
    assert_eq!(
        ParseIpv4AddrErr::TooFewComponents.description(),
        "Too few components in a MAC address string"
    );
    assert_eq!(
        ParseIpv4AddrErr::InvalidComponent.description(),
        "Invalid component in a MAC address string"
    );
}

#[test]
fn ipv6_new_zero_segments() {
    let a = Ipv6Addr::new(0xfe80, 0, 0, 0, 0, 0, 0, 1);
    assert_eq!(a.segments(), [0xfe80, 0, 0, 0, 0, 0, 0, 1]);
    assert_eq!(Ipv6Addr::zero(), Ipv6Addr(0, 0, 0, 0, 0, 0, 0, 0));
    assert_eq!(Ipv6Addr::default(), Ipv6Addr::zero());
}

#[test]
fn ipv6_text_is_eight_hex_groups() {
    assert_eq!(
        Ipv6Addr(0xfe80, 0, 0, 0, 0, 0, 0, 1).to_string(),
        "fe80:0000:0000:0000:0000:0000:0000:0001"
    );
    assert_eq!(
        Ipv6Addr(0x2001, 0x0db8, 0x00ff, 0xabcd, 0x1234, 0xffff, 0x0a0b, 0x0010).to_string(),
        "2001:0db8:00ff:abcd:1234:ffff:0a0b:0010"
    );
}

#[test]
fn ipv6_from_str_reads_hex_groups() {
    assert_eq!(
        Ipv6Addr::from_str("fe80:0000:0000:0000:0000:0000:0000:0001"),
        Ok(Ipv6Addr(0xfe80, 0, 0, 0, 0, 0, 0, 1))
    );
    assert_eq!(
        Ipv6Addr::from_str("1:2:3:4:5:6:7:FFFF"),
        Ok(Ipv6Addr(1, 2, 3, 4, 5, 6, 7, 0xffff))
    );
}

#[test]
fn ipv6_from_str_errors() {
    assert_eq!(Ipv6Addr::from_str("1:2:3:4:5:6:7"), Err(ParseIpv6AddrErr::TooFewComponents));
    assert_eq!(Ipv6Addr::from_str("1:2:3:4:5:6:7:8:9"), Err(ParseIpv6AddrErr::TooManyComponents));
    assert_eq!(Ipv6Addr::from_str("1:2:3:4:5:6:7:10000"), Err(ParseIpv6AddrErr::InvalidComponent));
    assert_eq!(Ipv6Addr::from_str("1:2:3:4:5:6:7:g"), Err(ParseIpv6AddrErr::InvalidComponent));
    assert_eq!(Ipv6Addr::from_str("fe80::1"), Err(ParseIpv6AddrErr::InvalidComponent));
    assert_eq!(Ipv6Addr::from_str("1.2.3.4.5.6.7.8"), Err(ParseIpv6AddrErr::InvalidComponent));
}

#[test]
fn ipv6_text_round_trip() {
    for a in [Ipv6Addr(0xfe80, 0, 0, 0, 0, 0, 0, 1), Ipv6Addr(1, 0x10, 0x100, 0x1000, 0xf, 0xf0, 0xf00, 0xf000)] {
        assert_eq!(Ipv6Addr::from_str(&a.to_string()), Ok(a));
    }
}

#[test]
fn ipv6_error_descriptions() {
    assert_eq!(
        ParseIpv6AddrErr::TooManyComponents.description(),
        "Too many components in a MAC address string"
    );
    assert_eq!(
        ParseIpv6AddrErr::TooFewComponents.description(),
        "Too few components in a MAC address string"
    );
    assert_eq!(
        ParseIpv6AddrErr::InvalidComponent.description(),
        "Invalid component in a MAC address string"
    );
}

#[test]
fn ip_addr_family_and_text() {
    let v4 = IpAddr::V4(Ipv4Addr(127, 0, 0, 1));
    let v6 = IpAddr::V6(Ipv6Addr(0, 0, 0, 0, 0, 0, 0, 1));
    assert!(v4.is_ipv4());
    assert!(!v4.is_ipv6());
    assert!(v6.is_ipv6());
    assert!(!v6.is_ipv4());
    assert_eq!(v4.to_string(), "127.0.0.1");
    assert_eq!(v6.to_string(), "0000:0000:0000:0000:0000:0000:0000:0001");
}

#[test]
fn addresses_order_by_components() {
    assert!(MacAddr(0, 0, 0, 0, 0, 1) < MacAddr(0, 0, 0, 0, 1, 0));
    assert!(Ipv4Addr(1, 2, 3, 4) < Ipv4Addr(1, 2, 4, 0));
    assert!(IpAddr::V4(Ipv4Addr(255, 255, 255, 255)) < IpAddr::V6(Ipv6Addr::zero()));
}

#[test]
fn primitive_values_of_addresses() {
    assert_eq!(MacAddr(1, 2, 3, 4, 5, 6).to_primitive_values(), (1, 2, 3, 4, 5, 6));
    assert_eq!(Ipv4Addr(1, 2, 3, 4).to_primitive_values(), (1, 2, 3, 4));
    assert_eq!(
        Ipv6Addr(1, 2, 3, 4, 5, 6, 7, 8).to_primitive_values(),
        (1, 2, 3, 4, 5, 6, 7, 8)
    );
}

#[test]
fn addresses_convert_to_and_from_arrays() {
    assert_eq!(MacAddr::from([1, 2, 3, 4, 5, 6]), MacAddr(1, 2, 3, 4, 5, 6));
    assert_eq!(<[u8; 6]>::from(MacAddr(1, 2, 3, 4, 5, 6)), [1, 2, 3, 4, 5, 6]);
    assert!(MacAddr(1, 2, 3, 4, 5, 6) == [1, 2, 3, 4, 5, 6]);
    assert!(MacAddr(1, 2, 3, 4, 5, 6) != [1, 2, 3, 4, 5, 7]);
    assert_eq!(Ipv4Addr::from([1, 2, 3, 4]), Ipv4Addr(1, 2, 3, 4));
    assert_eq!(<[u8; 4]>::from(Ipv4Addr(1, 2, 3, 4)), [1, 2, 3, 4]);
    assert!(Ipv4Addr(1, 2, 3, 4) == [1, 2, 3, 4]);
    assert!(Ipv4Addr(1, 2, 3, 4) != [0, 2, 3, 4]);
    assert_eq!(Ipv6Addr::from([1, 2, 3, 4, 5, 6, 7, 8]), Ipv6Addr(1, 2, 3, 4, 5, 6, 7, 8));
    assert_eq!(<[u16; 8]>::from(Ipv6Addr(1, 2, 3, 4, 5, 6, 7, 8)), [1, 2, 3, 4, 5, 6, 7, 8]);
    assert!(Ipv6Addr(1, 2, 3, 4, 5, 6, 7, 8) == [1, 2, 3, 4, 5, 6, 7, 8]);
    assert!(Ipv6Addr(1, 2, 3, 4, 5, 6, 7, 8) != [1, 2, 3, 4, 5, 6, 7, 9]);
}

#[test]
fn addresses_parse_through_str_parse() {
    assert_eq!("01:02:03:04:05:06".parse::<MacAddr>(), Ok(MacAddr(1, 2, 3, 4, 5, 6)));
    assert_eq!("10.0.0.1".parse::<Ipv4Addr>(), Ok(Ipv4Addr(10, 0, 0, 1)));
    assert_eq!("1:2:3:4:5:6:7:8".parse::<Ipv6Addr>(), Ok(Ipv6Addr(1, 2, 3, 4, 5, 6, 7, 8)));
    assert_eq!("10.0.0".parse::<Ipv4Addr>(), Err(ParseIpv4AddrErr::TooFewComponents));
}

#[test]
fn mac_text_outside_canonical_form_is_normalised() {
    assert_eq!(MacAddr::from_str("FF:0:+a:0B:001:9").unwrap().to_string(), "ff:00:0a:0b:01:09");
}
