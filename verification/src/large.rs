//! Byte sequences made of two to seven blocks of 64, 256 or 1024 bytes,
//! compared block by block.

use vstd::prelude::*;
use vstd::slice::slice_subrange;
use crate::array::{fixed_contains, fixed_is};
use crate::{all_equal, has_byte};

verus! {

/// The length of the blocks that a sequence of `n` bytes is made of, or 0
/// where `n` is no such length.
pub open spec fn block_len(n: int) -> int {
    if 2 * 64 <= n <= 7 * 64 && n % 64 == 0 {
        64
    } else if 2 * 256 <= n <= 7 * 256 && n % 256 == 0 {
        256
    } else if 2 * 1024 <= n <= 7 * 1024 && n % 1024 == 0 {
        1024
    } else {
        0
    }
}

/// Computes [`block_len`].
pub fn block_size(n: usize) -> (base: usize)
    ensures
        base == block_len(n as int),
{
    if 2 * 64 <= n && n <= 7 * 64 && n % 64 == 0 {
        64
    } else if 2 * 256 <= n && n <= 7 * 256 && n % 256 == 0 {
        256
    } else if 2 * 1024 <= n && n <= 7 * 1024 && n % 1024 == 0 {
        1024
    } else {
        0
    }
}

/// Returns whether every block of `b` is made of `byte` alone. Stops at the
/// first block that is not.
pub fn large_is(b: &[u8], byte: u8) -> (r: bool)
    requires
        block_len(b@.len() as int) != 0,
    ensures
        r == all_equal(b@, byte),
    decreases b@.len(), 0int,
{
    let n = b.len();
    let base = block_size(n);
    let mut at: usize = 0;
    while at < n
        invariant
            n == b@.len(),
            base == 64 || base == 256 || base == 1024,
            base < n,
            at <= n,
            (n - at) % (base as int) == 0,
            forall|i: int| 0 <= i < at ==> b@[i] == byte,
        decreases n - at,
    {
        let block = slice_subrange(b, at, at + base);
        if !fixed_is(block, byte) {
            proof {
                let j = choose|j: int| 0 <= j < base && block@[j] != byte;
                assert(b@[at + j] != byte);
            }
            return false;
        }
        assert forall|i: int| 0 <= i < at + base implies b@[i] == byte by {
            if i >= at {
                assert(block@[i - at] == byte);
            }
        }
        at += base;
    }
    true
}

/// Returns whether some block of `b` holds `byte`. Stops at the first
/// block that does.
pub fn large_contains(b: &[u8], byte: u8) -> (r: bool)
    requires
        block_len(b@.len() as int) != 0,
    ensures
        r == has_byte(b@, byte),
    decreases b@.len(), 0int,
{
    let n = b.len();
    let base = block_size(n);
    let mut at: usize = 0;
    while at < n
        invariant
            n == b@.len(),
            base == 64 || base == 256 || base == 1024,
            base < n,
            at <= n,
            (n - at) % (base as int) == 0,
            forall|i: int| 0 <= i < at ==> b@[i] != byte,
        decreases n - at,
    {
        let block = slice_subrange(b, at, at + base);
        if fixed_contains(block, byte) {
            proof {
                let j = choose|j: int| 0 <= j < base && block@[j] == byte;
                assert(b@[at + j] == byte);
            }
            return true;
        }
        assert forall|i: int| 0 <= i < at + base implies b@[i] != byte by {
            if i >= at {
                assert(block@[i - at] != byte);
            }
        }
        at += base;
    }
    false
}

} // verus!
