use objection::net::{CidrBlock, IpAddress};

#[test]
fn block_holds_the_addresses_that_share_its_prefix() {
    let b = CidrBlock { address: IpAddress::V4(0x0a00_0000), prefix_len: 8 };
    assert!(b.contains(&IpAddress::V4(0x0a00_0000)));
    assert!(b.contains(&IpAddress::V4(0x0aff_ffff)));
    assert!(!b.contains(&IpAddress::V4(0x0b00_0000)));
    assert!(!b.contains(&IpAddress::V4(0x09ff_ffff)));
    assert!(!b.contains(&IpAddress::V6(0x0a00_0000)));
}

#[test]
fn host_block_holds_one_address() {
    let b = CidrBlock { address: IpAddress::V4(0xc0a8_0107), prefix_len: 32 };
    assert!(b.contains(&IpAddress::V4(0xc0a8_0107)));
    assert!(!b.contains(&IpAddress::V4(0xc0a8_0106)));
    let six = CidrBlock { address: IpAddress::V6(1), prefix_len: 128 };
    assert!(six.contains(&IpAddress::V6(1)));
    assert!(!six.contains(&IpAddress::V6(2)));
}

#[test]
fn empty_prefix_holds_the_whole_family() {
    let b = CidrBlock { address: IpAddress::V4(0), prefix_len: 0 };
    assert!(b.contains(&IpAddress::V4(0)));
    assert!(b.contains(&IpAddress::V4(u32::MAX)));
    assert!(!b.contains(&IpAddress::V6(0)));
    let six = CidrBlock { address: IpAddress::V6(0), prefix_len: 0 };
    assert!(six.contains(&IpAddress::V6(u128::MAX)));
    assert!(!six.contains(&IpAddress::V4(1)));
}

#[test]
fn ipv6_block_compares_the_leading_bits() {
    let b = CidrBlock { address: IpAddress::V6(0xfe80 << 112), prefix_len: 10 };
    assert!(b.contains(&IpAddress::V6((0xfe80 << 112) | 0x1234)));
    assert!(b.contains(&IpAddress::V6(0xfebf << 112)));
    assert!(!b.contains(&IpAddress::V6(0xfec0 << 112)));
}

#[test]
fn loopback_is_127_slash_8_and_colon_colon_one() {
    assert!(IpAddress::V4(0x7f00_0001).is_loopback());
    assert!(IpAddress::V4(0x7fff_ffff).is_loopback());
    assert!(!IpAddress::V4(0x8000_0001).is_loopback());
    assert!(!IpAddress::V4(0x7eff_ffff).is_loopback());
    assert!(IpAddress::V6(1).is_loopback());
    assert!(!IpAddress::V6(0).is_loopback());
    assert!(!IpAddress::V6(0x7f00_0001).is_loopback());
}
