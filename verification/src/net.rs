//! Peer address classification.

use vstd::prelude::*;

verus! {

/// An IP address: four IPv4 octets or eight IPv6 16-bit segments.
#[derive(Debug, Clone, Copy, PartialEq, Eq)]
pub enum IpAddress {
    V4([u8; 4]),
    V6([u16; 8]),
}

/// Private (10/8, 172.16/12, 192.168/16), loopback (127/8) or link-local
/// (169.254/16) IPv4 address.
pub open spec fn v4_is_local(o: [u8; 4]) -> bool {
    ||| o[0] == 10
    ||| (o[0] == 172 && 16 <= o[1] <= 31)
    ||| (o[0] == 192 && o[1] == 168)
    ||| o[0] == 127
    ||| (o[0] == 169 && o[1] == 254)
}

/// Loopback (`::1`) or link-local (`fe80::/10`) IPv6 address.
pub open spec fn v6_is_local(s: [u16; 8]) -> bool {
    ||| (s[0] == 0 && s[1] == 0 && s[2] == 0 && s[3] == 0 && s[4] == 0 && s[5] == 0 && s[6]
        == 0 && s[7] == 1)
    ||| (0xfe80 <= s[0] <= 0xfebf)
}

/// Whether an address belongs to a private or local network.
pub open spec fn is_private_ip(addr: IpAddress) -> bool {
    match addr {
        IpAddress::V4(o) => v4_is_local(o),
        IpAddress::V6(s) => v6_is_local(s),
    }
}

/// Whether an address belongs to a private or local network.
pub fn exec_is_private_ip(addr: &IpAddress) -> (b: bool)
    ensures
        b == is_private_ip(*addr),
{
    match addr {
        IpAddress::V4(o) => {
            o[0] == 10 || (o[0] == 172 && 16 <= o[1] && o[1] <= 31) || (o[0] == 192 && o[1]
                == 168) || o[0] == 127 || (o[0] == 169 && o[1] == 254)
        },
        IpAddress::V6(s) => {
            let s0 = s[0];
            let masked = s0 & 0xffc0;
            assert((s0 & 0xffc0 == 0xfe80) == (0xfe80 <= s0 && s0 <= 0xfebf)) by (bit_vector);
            (s[0] == 0 && s[1] == 0 && s[2] == 0 && s[3] == 0 && s[4] == 0 && s[5] == 0 && s[6]
                == 0 && s[7] == 1) || masked == 0xfe80
        },
    }
}

} // verus!
