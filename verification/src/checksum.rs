//! The modular sum that closes every frame of the remote serial protocol.

use vstd::prelude::*;

verus! {

/// Sum of all bytes of `data`, reduced modulo 256.
pub open spec fn checksum(data: Seq<u8>) -> int
    decreases data.len(),
{
    if data.len() == 0 {
        0
    } else {
        (checksum(data.drop_last()) + data.last()) % 256
    }
}

/// Computes the checksum of `data` with wrapping 8-bit additions.
pub fn compute_checksum(data: &[u8]) -> (sum: u8)
    ensures
        sum == checksum(data@),
{
    let mut sum: u8 = 0;
    let mut i: usize = 0;
    while i < data.len()
        invariant
            i <= data.len(),
            sum == checksum(data@.take(i as int)),
        decreases data.len() - i,
    {
        proof {
            assert(data@.take(i + 1).drop_last() =~= data@.take(i as int));
        }
        sum = sum.wrapping_add(data[i]);
        i = i + 1;
    }
    proof {
        assert(data@.take(i as int) =~= data@);
    }
    sum
}

} // verus!
