use linkage::{AddressFamily, IpAddress};

#[test]
fn ipv4_text() {
    assert_eq!("1.1.1.1", IpAddress::V4(0x0101_0101).to_text());
    assert_eq!("127.0.0.1", IpAddress::V4(0x7f00_0001).to_text());
    assert_eq!("0.0.0.0", IpAddress::V4(0).to_text());
    assert_eq!("255.255.255.255", IpAddress::V4(u32::MAX).to_text());
    assert_eq!("192.168.1.112", IpAddress::V4(0xc0a8_0170).to_text());
}

#[test]
fn ipv6_text_compresses_the_longest_zero_run() {
    assert_eq!("2001:db8:85a3::8a2e:370:7334", IpAddress::V6(0x2001_0db8_85a3_0000_0000_8a2e_0370_7334).to_text());
    assert_eq!("2001:db8::1", IpAddress::V6(0x2001_0db8_0000_0000_0000_0000_0000_0001).to_text());
    assert_eq!("2607:f0d0:1002:51::4", IpAddress::V6(0x2607_f0d0_1002_0051_0000_0000_0000_0004).to_text());
    assert_eq!("::", IpAddress::V6(0).to_text());
    assert_eq!("::1", IpAddress::V6(1).to_text());
    assert_eq!("1::", IpAddress::V6(1u128 << 112).to_text());
    assert_eq!("1:0:0:1::1", IpAddress::V6(0x0001_0000_0000_0001_0000_0000_0000_0001).to_text());
    assert_eq!("1:0:1:1:1:1:1:1", IpAddress::V6(0x0001_0000_0001_0001_0001_0001_0001_0001).to_text());
    assert_eq!("::ffff:1.2.3.4", IpAddress::V6(0xffff_0102_0304).to_text());
}

#[test]
fn family_and_order() {
    assert_eq!(AddressFamily::V4, IpAddress::V4(7).get_family());
    assert_eq!(AddressFamily::V6, IpAddress::V6(7).get_family());
    assert!(IpAddress::V4(u32::MAX).is_before(&IpAddress::V6(0)));
    assert!(IpAddress::V4(1).is_before(&IpAddress::V4(2)));
    assert!(!IpAddress::V6(2).is_before(&IpAddress::V6(2)));
}
