//! Geometry of the SBC frames that the source can send.

use vstd::prelude::*;

verus! {

/// Smallest bitpool for which frames can be produced.
pub const MIN_BITPOOL: u8 = 27;

/// Largest bitpool for which frames can be produced.
pub const MAX_BITPOOL: u8 = 53;

/// Bytes in one 16-block, 8-subband stereo SBC frame of the given bitpool.
pub open spec fn sbc_frame_length(bitpool: u8) -> nat {
    (12 + 2 * bitpool) as nat
}

pub open spec fn bitpool_supported(bitpool: u8) -> bool {
    MIN_BITPOOL <= bitpool <= MAX_BITPOOL
}

/// Length of one frame, for the bitpools that the source supports.
pub fn frame_length(bitpool: u8) -> (length: Option<usize>)
    ensures
        length == (if bitpool_supported(bitpool) {
            Some(sbc_frame_length(bitpool) as usize)
        } else {
            None
        }),
{
    if bitpool < MIN_BITPOOL || bitpool > MAX_BITPOOL {
        None
    } else {
        Some(12 + 2 * (bitpool as usize))
    }
}

} // verus!
