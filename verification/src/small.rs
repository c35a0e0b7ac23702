//! Byte sequences of two, four and eight bytes: short enough to be compared
//! as a single word.

use vstd::prelude::*;
use crate::batch::load;
use crate::scalar::{lane, zero_word_u16, zero_word_u32, zero_word_u64};
use crate::{all_equal, all_zero, has_byte, Bytes};

verus! {

/// Reads the two bytes of `b` as one word, the first byte in the lowest lane.
pub fn load16(b: &[u8]) -> (w: u16)
    requires
        b@.len() == 2,
    ensures
        w.bytes() == b@,
{
    let b0 = b[0];
    let b1 = b[1];
    let w = (b0 as u16) | (b1 as u16) << 8;
    proof {
        assert(lane(w as u64, 0) == b0 && lane(w as u64, 1) == b1) by (bit_vector)
            requires
                w == (b0 as u16) | (b1 as u16) << 8,
        ;
        assert(w.bytes() =~= b@);
    }
    w
}

/// Reads the four bytes of `b` as one word, the first byte in the lowest lane.
pub fn load32(b: &[u8]) -> (w: u32)
    requires
        b@.len() == 4,
    ensures
        w.bytes() == b@,
{
    let b0 = b[0];
    let b1 = b[1];
    let b2 = b[2];
    let b3 = b[3];
    let w = (b0 as u32) | (b1 as u32) << 8 | (b2 as u32) << 16 | (b3 as u32) << 24;
    proof {
        assert(lane(w as u64, 0) == b0 && lane(w as u64, 1) == b1 && lane(w as u64, 2) == b2 && lane(
            w as u64,
            3,
        ) == b3) by (bit_vector)
            requires
                w == (b0 as u32) | (b1 as u32) << 8 | (b2 as u32) << 16 | (b3 as u32) << 24,
        ;
        assert(w.bytes() =~= b@);
    }
    w
}

/// Returns whether the two, four or eight bytes of `b` are all `byte`.
pub fn small_is(b: &[u8], byte: u8) -> (r: bool)
    requires
        b@.len() == 2 || b@.len() == 4 || b@.len() == 8,
    ensures
        r == all_equal(b@, byte),
{
    match b.len() {
        2 => {
            let x = b[0];
            let y = b[1];
            // X xor Y equals 0 iff X equals Y
            assert(((x ^ byte) | (y ^ byte) == 0) <==> (x == byte && y == byte)) by (bit_vector);
            (x ^ byte) | (y ^ byte) == 0
        },
        4 => load32(b).is(byte),
        _ => {
            assert(b@.subrange(0, 8) =~= b@);
            load(b, 0).is(byte)
        },
    }
}

/// Returns whether the two, four or eight bytes of `b` are all zero.
pub fn small_is_zero(b: &[u8]) -> (r: bool)
    requires
        b@.len() == 2 || b@.len() == 4 || b@.len() == 8,
    ensures
        r == all_zero(b@),
{
    match b.len() {
        2 => {
            let w = load16(b);
            proof {
                zero_word_u16(w);
            }
            w == 0
        },
        4 => {
            let w = load32(b);
            proof {
                zero_word_u32(w);
            }
            w == 0
        },
        _ => {
            assert(b@.subrange(0, 8) =~= b@);
            let w = load(b, 0);
            proof {
                zero_word_u64(w);
            }
            w == 0
        },
    }
}

/// Returns whether the two, four or eight bytes of `b` hold `byte`.
pub fn small_contains(b: &[u8], byte: u8) -> (r: bool)
    requires
        b@.len() == 2 || b@.len() == 4 || b@.len() == 8,
    ensures
        r == has_byte(b@, byte),
{
    match b.len() {
        2 => {
            assert(b@[0] == byte || b@[1] == byte ==> has_byte(b@, byte));
            b[0] == byte || b[1] == byte
        },
        4 => load32(b).contains(byte),
        _ => {
            assert(b@.subrange(0, 8) =~= b@);
            load(b, 0).contains(byte)
        },
    }
}

} // verus!
