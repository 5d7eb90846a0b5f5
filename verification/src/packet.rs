//! The Wake-on-LAN magic packet: six synchronization bytes of `0xFF`
//! followed by the target MAC address repeated sixteen times.

use vstd::prelude::*;

use crate::mac::MacAddress;

verus! {

/// The UDP port Wake-on-LAN packets are sent to (the "discard" port).
pub const WOL_PORT: u16 = 9;

/// Length of the magic packet: 6 header bytes plus 16 repetitions of the
/// 6-byte MAC address.
pub const MAGIC_PACKET_LEN: usize = 102;

/// Builds the magic packet for `mac`: exactly 102 bytes, the first six all
/// `0xFF`, then the six MAC bytes repeated sixteen times back to back.
pub fn build_magic_packet(mac: &MacAddress) -> (r: Vec<u8>)
    requires
        mac.wf(),
    ensures
        r@.len() == MAGIC_PACKET_LEN,
        forall|i: int| 0 <= i < 6 ==> r@[i] == 0xFFu8,
        forall|k: int, j: int|
            0 <= k < 16 && 0 <= j < 6 ==> #[trigger] r@[6 + 6 * k + j] == mac.bytes@[j],
{
    let mut r: Vec<u8> = Vec::new();
    let mut i: usize = 0;
    while i < 6
        invariant
            i <= 6,
            r@.len() == i,
            forall|t: int| 0 <= t < i ==> r@[t] == 0xFFu8,
        decreases 6 - i,
    {
        r.push(0xFF);
        i = i + 1;
    }
    let mut k: usize = 0;
    while k < 16
        invariant
            k <= 16,
            mac.wf(),
            r@.len() == 6 + 6 * k,
            forall|t: int| 0 <= t < 6 ==> r@[t] == 0xFFu8,
            forall|t: int, j: int|
                0 <= t < k && 0 <= j < 6 ==> #[trigger] r@[6 + 6 * t + j] == mac.bytes@[j],
        decreases 16 - k,
    {
        let mut j: usize = 0;
        while j < 6
            invariant
                j <= 6,
                k < 16,
                mac.wf(),
                r@.len() == 6 + 6 * k + j,
                forall|t: int| 0 <= t < 6 ==> r@[t] == 0xFFu8,
                forall|t: int, u: int|
                    0 <= t < k && 0 <= u < 6 ==> #[trigger] r@[6 + 6 * t + u] == mac.bytes@[u],
                forall|u: int| 0 <= u < j ==> #[trigger] r@[6 + 6 * (k as int) + u] == mac.bytes@[u],
            decreases 6 - j,
        {
            r.push(mac.bytes[j]);
            j = j + 1;
        }
        k = k + 1;
    }
    r
}

} // verus!
