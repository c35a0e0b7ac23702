//! Byte sequences whose length is fixed by their type. How one is compared
//! goes by its length.

use vstd::prelude::*;
use crate::large::{block_len, block_size, large_contains, large_is};
use crate::multi::{is_multi, multi_contains, multi_is};
use crate::small::{small_contains, small_is, small_is_zero};
use crate::{all_equal, all_zero, has_byte, repeated, zero_is_a_byte, Bytes, SizedBytes};

verus! {

/// Returns whether every byte of `b` is `byte`: as one word where `b` has
/// two, four or eight bytes, word by word where it has sixteen, thirty-two
/// or sixty-four, block by block where it is made of blocks, and as a
/// sequence of any length otherwise.
pub fn fixed_is(b: &[u8], byte: u8) -> (r: bool)
    ensures
        r == all_equal(b@, byte),
    decreases b@.len(), 1int,
{
    let n = b.len();
    if n == 2 || n == 4 || n == 8 {
        small_is(b, byte)
    } else if n == 16 || n == 32 || n == 64 {
        multi_is(b, byte)
    } else if block_size(n) != 0 {
        large_is(b, byte)
    } else {
        Bytes::is(b, byte)
    }
}

/// Returns whether every byte of `b` is zero: by one comparison with the
/// zero word where `b` has two, four or eight bytes, and as [`fixed_is`]
/// does otherwise.
pub fn fixed_is_zero(b: &[u8]) -> (r: bool)
    ensures
        r == all_zero(b@),
{
    let n = b.len();
    if n == 2 || n == 4 || n == 8 {
        small_is_zero(b)
    } else {
        proof {
            zero_is_a_byte(b@);
        }
        fixed_is(b, 0)
    }
}

/// Returns whether `b` contains `byte`, by the length of `b` as
/// [`fixed_is`] does.
pub fn fixed_contains(b: &[u8], byte: u8) -> (r: bool)
    ensures
        r == has_byte(b@, byte),
    decreases b@.len(), 1int,
{
    let n = b.len();
    if n == 2 || n == 4 || n == 8 {
        small_contains(b, byte)
    } else if n == 16 || n == 32 || n == 64 {
        multi_contains(b, byte)
    } else if block_size(n) != 0 {
        large_contains(b, byte)
    } else {
        Bytes::contains(b, byte)
    }
}

impl<const N: usize> Bytes for [u8; N] {
    open spec fn bytes(&self) -> Seq<u8> {
        self@
    }

    fn is(&self, byte: u8) -> (r: bool) {
        fixed_is(self.as_slice(), byte)
    }

    fn is_zero(&self) -> (r: bool) {
        fixed_is_zero(self.as_slice())
    }

    fn contains(&self, byte: u8) -> (r: bool) {
        fixed_contains(self.as_slice(), byte)
    }
}

impl<const N: usize> SizedBytes for [u8; N] {
    open spec fn width() -> nat {
        N as nat
    }

    proof fn width_is_exact(&self) {
    }

    fn splat(byte: u8) -> (r: [u8; N]) {
        let r = [byte;N];
        assert(r.bytes() =~= repeated(byte, <[u8; N] as SizedBytes>::width()));
        r
    }
}

/// An array and a slice of all of it stand for the same bytes, so that
/// each query gives the same answer on both, whatever the array's length.
pub proof fn array_agrees_with_slice<const N: usize>(a: &[u8; N], s: &[u8], byte: u8)
    requires
        s@ == a@,
    ensures
        a.bytes() == s.bytes(),
        all_equal(a.bytes(), byte) == all_equal(s.bytes(), byte),
        has_byte(a.bytes(), byte) == has_byte(s.bytes(), byte),
        all_zero(a.bytes()) == all_zero(s.bytes()),
        crate::has_zero(a.bytes()) == crate::has_zero(s.bytes()),
{
}

} // verus!
