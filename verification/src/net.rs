//! Addresses and CIDR blocks as plain integers, and the tests made on them.
use vstd::prelude::*;

verus! {

/// An IP address: the 32 bits of an IPv4 address or the 128 bits of an IPv6
/// address, most significant octet first.
#[derive(Debug, Clone, Copy, PartialEq, Eq, Structural)]
pub enum IpAddress {
    V4(u32),
    V6(u128),
}

/// A network: its first address and the number of leading bits that every
/// address in it shares.
#[derive(Debug, Clone, Copy, PartialEq, Eq, Structural)]
pub struct CidrBlock {
    pub address: IpAddress,
    pub prefix_len: u8,
}

/// The bits of an IPv4 address after the first `len`.
pub open spec fn host_bits_v4(a: u32, len: u8) -> u32 {
    if len >= 32 {
        0u32
    } else {
        a & (0xffff_ffffu32 >> (len as u32))
    }
}

/// The bits of an IPv6 address after the first `len`.
pub open spec fn host_bits_v6(a: u128, len: u8) -> u128 {
    if len >= 128 {
        0u128
    } else {
        a & (0xffff_ffff_ffff_ffff_ffff_ffff_ffff_ffffu128 >> (len as u128))
    }
}

impl IpAddress {
    /// Loopback addresses: `127.0.0.0/8` and `::1`.
    pub open spec fn spec_is_loopback(self) -> bool {
        match self {
            IpAddress::V4(a) => a >> 24u32 == 127u32,
            IpAddress::V6(a) => a == 1u128,
        }
    }

    /// Whether the address is a loopback address.
    pub fn is_loopback(&self) -> (r: bool)
        ensures
            r == self.spec_is_loopback(),
    {
        match self {
            IpAddress::V4(a) => *a >> 24u32 == 127u32,
            IpAddress::V6(a) => *a == 1u128,
        }
    }
}

impl CidrBlock {
    /// The prefix fits the address family and the bits after it are zero.
    pub open spec fn wf(self) -> bool {
        match self.address {
            IpAddress::V4(a) => self.prefix_len <= 32 && host_bits_v4(a, self.prefix_len) == 0,
            IpAddress::V6(a) => self.prefix_len <= 128 && host_bits_v6(a, self.prefix_len) == 0,
        }
    }

    /// An address lies in the block when it is of the same family and differs
    /// from the block's first address in host bits only.
    pub open spec fn spec_contains(self, ip: IpAddress) -> bool {
        match (self.address, ip) {
            (IpAddress::V4(n), IpAddress::V4(a)) => (a ^ n) == host_bits_v4(a ^ n, self.prefix_len),
            (IpAddress::V6(n), IpAddress::V6(a)) => (a ^ n) == host_bits_v6(a ^ n, self.prefix_len),
            _ => false,
        }
    }

    /// Whether an address lies in the block.
    pub fn contains(&self, ip: &IpAddress) -> (r: bool)
        ensures
            r == self.spec_contains(*ip),
    {
        match (self.address, *ip) {
            (IpAddress::V4(n), IpAddress::V4(a)) => {
                let d: u32 = a ^ n;
                if self.prefix_len >= 32 {
                    d == 0
                } else {
                    let len: u32 = self.prefix_len as u32;
                    d == d & (0xffff_ffffu32 >> len)
                }
            },
            (IpAddress::V6(n), IpAddress::V6(a)) => {
                let d: u128 = a ^ n;
                if self.prefix_len >= 128 {
                    d == 0
                } else {
                    let len: u128 = self.prefix_len as u128;
                    d == d & (0xffff_ffff_ffff_ffff_ffff_ffff_ffff_ffffu128 >> len)
                }
            },
            _ => false,
        }
    }
}

/// A block holds its own first address.
pub proof fn block_contains_its_first_address(b: CidrBlock)
    ensures
        b.spec_contains(b.address),
{
    match b.address {
        IpAddress::V4(n) => {
            let len = b.prefix_len as u32;
            assert((n ^ n) == 0u32) by (bit_vector);
            assert(0u32 & (0xffff_ffffu32 >> len) == 0u32) by (bit_vector);
        },
        IpAddress::V6(n) => {
            let len = b.prefix_len as u128;
            assert((n ^ n) == 0u128) by (bit_vector);
            assert(0u128 & (0xffff_ffff_ffff_ffff_ffff_ffff_ffff_ffffu128 >> len) == 0u128)
                by (bit_vector);
        },
    }
}

/// A block whose prefix is the whole address holds that address and no other.
pub proof fn host_block_holds_one_address(b: CidrBlock, ip: IpAddress)
    requires
        b.address matches IpAddress::V4(_) ==> b.prefix_len == 32,
        b.address matches IpAddress::V6(_) ==> b.prefix_len == 128,
    ensures
        b.spec_contains(ip) <==> ip == b.address,
{
    match (b.address, ip) {
        (IpAddress::V4(n), IpAddress::V4(a)) => {
            assert(((a ^ n) == 0u32) <==> a == n) by (bit_vector);
        },
        (IpAddress::V6(n), IpAddress::V6(a)) => {
            assert(((a ^ n) == 0u128) <==> a == n) by (bit_vector);
        },
        _ => {},
    }
}

/// A block with an empty prefix holds every address of its family.
pub proof fn empty_prefix_holds_all(b: CidrBlock, ip: IpAddress)
    requires
        b.prefix_len == 0,
    ensures
        b.spec_contains(ip) <==> (b.address is V4 <==> ip is V4),
{
    match (b.address, ip) {
        (IpAddress::V4(n), IpAddress::V4(a)) => {
            let d = a ^ n;
            assert(d & (0xffff_ffffu32 >> 0u32) == d) by (bit_vector);
        },
        (IpAddress::V6(n), IpAddress::V6(a)) => {
            let d = a ^ n;
            assert(d & (0xffff_ffff_ffff_ffff_ffff_ffff_ffff_ffffu128 >> 0u128) == d)
                by (bit_vector);
        },
        _ => {},
    }
}

} // verus!
