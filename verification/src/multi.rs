//! Byte sequences of sixteen, thirty-two and sixty-four bytes: a few batch
//! words, compared one word at a time.

use vstd::prelude::*;
use crate::batch::Batches;
use crate::{all_equal, has_byte};

verus! {

/// Whether a sequence of `n` bytes is compared as a few batch words.
pub open spec fn is_multi(n: int) -> bool {
    n == 16 || n == 32 || n == 64
}

/// Returns whether every batch word of `b` is made of `byte` alone.
pub fn multi_is(b: &[u8], byte: u8) -> (r: bool)
    requires
        is_multi(b@.len() as int),
    ensures
        r == all_equal(b@, byte),
{
    Batches::exact(b).all_are(byte)
}

/// Returns whether some batch word of `b` holds `byte`.
pub fn multi_contains(b: &[u8], byte: u8) -> (r: bool)
    requires
        is_multi(b@.len() as int),
    ensures
        r == has_byte(b@, byte),
{
    Batches::exact(b).any_contains(byte)
}

} // verus!
