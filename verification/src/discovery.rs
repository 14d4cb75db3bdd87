//! Discovery of peers on the local network: where greetings are broadcast.

use vstd::prelude::*;

verus! {

/// UDP port on which nodes greet each other.
pub const DISCOVERY_PORT: u16 = 47800;

/// Milliseconds between two greetings of a node.
pub const DISCOVERY_INTERVAL_MS: u64 = 3000;

/// Seconds after which a silent peer is dropped.
pub const PEER_TIMEOUT_SECS: u64 = 15;

/// The subnet-directed broadcast address for a local IPv4 address: the
/// link-local range 169.254.0.0/16 broadcasts to 169.254.255.255, every
/// other address is taken as a /24 and broadcasts to its `.255`.
pub open spec fn broadcast_of(o: Seq<u8>) -> Seq<u8> {
    if o[0] == 169 && o[1] == 254 {
        seq![169u8, 254u8, 255u8, 255u8]
    } else {
        seq![o[0], o[1], o[2], 255u8]
    }
}

/// The subnet-directed broadcast address for the local address `o`.
pub fn directed_broadcast_of(o: [u8; 4]) -> (r: [u8; 4])
    ensures
        r@ == broadcast_of(o@),
{
    let r = if o[0] == 10 {
        [o[0], o[1], o[2], 255]
    } else if o[0] == 172 && o[1] >= 16 && o[1] <= 31 {
        [o[0], o[1], o[2], 255]
    } else if o[0] == 192 && o[1] == 168 {
        [o[0], o[1], o[2], 255]
    } else if o[0] == 169 && o[1] == 254 {
        [169, 254, 255, 255]
    } else {
        [o[0], o[1], o[2], 255]
    };
    assert(r@ =~= broadcast_of(o@));
    r
}

} // verus!
