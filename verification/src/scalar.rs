//! Words as packed byte lanes: lane `i` of a word is its bits `8 * i` to
//! `8 * i + 7`, and a word of `n` bytes stands for its lanes `0` to `n - 1`.
//! Equality with a byte and the search for a byte are done on all lanes at
//! once, in a fixed number of word operations.

use vstd::prelude::*;
use crate::{all_equal, all_zero, has_byte, repeated, zero_is_a_byte, Bytes, SizedBytes};

verus! {

/// The word with the lowest bit of every lane set.
pub const LO: u64 = 0x0101_0101_0101_0101;

/// The word with the highest bit of every lane set.
pub const HI: u64 = 0x8080_8080_8080_8080;

/// The masks are what their definitions by arithmetic give: the greatest
/// word divided by the greatest byte, and that shifted to each lane's top.
pub proof fn lane_masks()
    ensures
        LO == u64::MAX / 0xff,
        HI == LO << 7,
{
    assert(HI == LO << 7) by (bit_vector);
}

/// Lane `i` of `w`.
pub open spec fn lane(w: u64, i: int) -> u8 {
    ((w >> ((8 * i) as u64)) & 0xff) as u8
}

/// The lowest `n` lanes of `w`, lowest first.
pub open spec fn lanes(w: u64, n: nat) -> Seq<u8> {
    Seq::new(n, |i: int| lane(w, i))
}

/// Each of the lowest `n` lanes of `w` is `byte`, lane by lane.
pub open spec fn each_lane_is(w: u64, n: nat, byte: u8) -> bool {
    &&& n > 0 ==> lane(w, 0) == byte
    &&& n > 1 ==> lane(w, 1) == byte
    &&& n > 2 ==> lane(w, 2) == byte
    &&& n > 3 ==> lane(w, 3) == byte
    &&& n > 4 ==> lane(w, 4) == byte
    &&& n > 5 ==> lane(w, 5) == byte
    &&& n > 6 ==> lane(w, 6) == byte
    &&& n > 7 ==> lane(w, 7) == byte
}

/// One of the lowest `n` lanes of `w` is `byte`, lane by lane.
pub open spec fn some_lane_is(w: u64, n: nat, byte: u8) -> bool {
    ||| n > 0 && lane(w, 0) == byte
    ||| n > 1 && lane(w, 1) == byte
    ||| n > 2 && lane(w, 2) == byte
    ||| n > 3 && lane(w, 3) == byte
    ||| n > 4 && lane(w, 4) == byte
    ||| n > 5 && lane(w, 5) == byte
    ||| n > 6 && lane(w, 6) == byte
    ||| n > 7 && lane(w, 7) == byte
}

/// The lane-by-lane statement says of the lanes what [`all_equal`] says of
/// the sequence of them.
pub proof fn lemma_each_lane(w: u64, n: nat, byte: u8)
    requires
        0 < n <= 8,
    ensures
        each_lane_is(w, n, byte) == all_equal(lanes(w, n), byte),
{
    let s = lanes(w, n);
    if each_lane_is(w, n, byte) {
        assert forall|i: int| 0 <= i < s.len() implies s[i] == byte by {
            assert(i == 0 || i == 1 || i == 2 || i == 3 || i == 4 || i == 5 || i == 6 || i == 7);
        }
    }
    if all_equal(s, byte) {
        assert(n > 0 ==> s[0] == byte);
        assert(n > 1 ==> s[1] == byte);
        assert(n > 2 ==> s[2] == byte);
        assert(n > 3 ==> s[3] == byte);
        assert(n > 4 ==> s[4] == byte);
        assert(n > 5 ==> s[5] == byte);
        assert(n > 6 ==> s[6] == byte);
        assert(n > 7 ==> s[7] == byte);
    }
}

/// The lane-by-lane statement says of the lanes what [`has_byte`] says of
/// the sequence of them.
pub proof fn lemma_some_lane(w: u64, n: nat, byte: u8)
    requires
        n <= 8,
    ensures
        some_lane_is(w, n, byte) == has_byte(lanes(w, n), byte),
{
    let s = lanes(w, n);
    if some_lane_is(w, n, byte) {
        let i: int = if n > 0 && lane(w, 0) == byte {
            0
        } else if n > 1 && lane(w, 1) == byte {
            1
        } else if n > 2 && lane(w, 2) == byte {
            2
        } else if n > 3 && lane(w, 3) == byte {
            3
        } else if n > 4 && lane(w, 4) == byte {
            4
        } else if n > 5 && lane(w, 5) == byte {
            5
        } else if n > 6 && lane(w, 6) == byte {
            6
        } else {
            7
        };
        assert(0 <= i < s.len() && s[i] == byte);
    }
    if has_byte(s, byte) {
        let i = choose|i: int| 0 <= i < s.len() && s[i] == byte;
        assert(i == 0 || i == 1 || i == 2 || i == 3 || i == 4 || i == 5 || i == 6 || i == 7);
    }
}

/// The zero-lane detector: taking one from every lane borrows through a
/// lane's top bit only where the lane was zero or the borrow came from a
/// zero lane below, and the lanes whose top bit was set before are masked
/// out, so that a bit is left exactly when some lane is zero.
proof fn lemma_zero_lane_u16(w: u16)
    ensures
        (w.wrapping_sub((LO as u16)) & !w & (HI as u16) != 0) == some_lane_is(w as u64, 2, 0),
{
    assert((w.wrapping_sub((LO as u16)) & !w & (HI as u16) != 0) == some_lane_is(w as u64, 2, 0))
        by (bit_vector);
}

/// The low mask times a byte fits the word and has the byte in every lane.
proof fn lemma_splat_u16(byte: u8)
    ensures
        (LO as u16) * byte == 0x0101 * byte <= u16::MAX,
        each_lane_is((0x0101 * byte) as u64, 2, byte),
{
    assert((LO as u16) * byte == 0x0101 * byte && 0x0101 * byte <= u16::MAX) by (bit_vector);
    assert(each_lane_is(((0x0101 * byte) as u16) as u64, 2, byte)) by (bit_vector);
}

/// Against a word `b` with `byte` in every lane: a word equals `b` exactly
/// when each of its lanes is `byte`, and its difference from `b` by xor has
/// a zero lane exactly where it has `byte`.
proof fn lemma_lanes_u16(a: u16, b: u16, byte: u8)
    ensures
        each_lane_is(b as u64, 2, byte) ==> (a == b <==> each_lane_is(a as u64, 2, byte)),
        each_lane_is(b as u64, 2, byte) ==> (some_lane_is((a ^ b) as u64, 2, 0)
            <==> some_lane_is(a as u64, 2, byte)),
{
    assert(each_lane_is(b as u64, 2, byte) ==> (a == b <==> each_lane_is(a as u64, 2, byte)))
        by (bit_vector);
    assert(each_lane_is(b as u64, 2, byte) ==> (some_lane_is((a ^ b) as u64, 2, 0)
        <==> some_lane_is(a as u64, 2, byte))) by (bit_vector);
}

/// A 16-bit word is zero exactly when all two of its bytes are.
pub proof fn zero_word_u16(w: u16)
    ensures
        (w == 0) == all_zero(w.bytes()),
{
    assert(each_lane_is(0, 2, 0)) by (bit_vector);
    lemma_lanes_u16(w, 0, 0);
    lemma_each_lane(w as u64, 2, 0);
    zero_is_a_byte(w.bytes());
}

impl Bytes for u16 {
    open spec fn bytes(&self) -> Seq<u8> {
        lanes(*self as u64, 2)
    }

    fn is(&self, byte: u8) -> (r: bool) {
        let s = <u16 as SizedBytes>::splat(byte);
        proof {
            lemma_each_lane(s as u64, 2, byte);
            lemma_each_lane(*self as u64, 2, byte);
            lemma_lanes_u16(*self, s, byte);
        }
        *self == s
    }

    fn contains(&self, byte: u8) -> (r: bool) {
        let s = <u16 as SizedBytes>::splat(byte);
        proof {
            lemma_each_lane(s as u64, 2, byte);
            lemma_some_lane(*self as u64, 2, byte);
            lemma_some_lane((*self ^ s) as u64, 2, 0);
            lemma_lanes_u16(*self, s, byte);
        }
        (*self ^ s).contains_zero()
    }

    fn contains_zero(&self) -> (r: bool) {
        proof {
            lemma_zero_lane_u16(*self);
            lemma_some_lane(*self as u64, 2, 0);
        }
        self.wrapping_sub(#[verifier::truncate] (LO as u16)) & !*self & #[verifier::truncate] (HI as u16) != 0
    }
}

impl SizedBytes for u16 {
    open spec fn width() -> nat {
        2
    }

    proof fn width_is_exact(&self) {
    }

    fn splat(byte: u8) -> (r: u16)
        ensures
            r == 0x0101 * byte,
    {
        proof {
            lemma_splat_u16(byte);
            lemma_each_lane((0x0101 * byte) as u64, 2, byte);
        }
        // Spread `byte`'s bits across each starting bit in `LO`
        let r = #[verifier::truncate] (LO as u16) * (byte as u16);
        assert(r.bytes() =~= repeated(byte, <u16 as SizedBytes>::width()));
        r
    }
}

/// The zero-lane detector: taking one from every lane borrows through a
/// lane's top bit only where the lane was zero or the borrow came from a
/// zero lane below, and the lanes whose top bit was set before are masked
/// out, so that a bit is left exactly when some lane is zero.
proof fn lemma_zero_lane_u32(w: u32)
    ensures
        (w.wrapping_sub((LO as u32)) & !w & (HI as u32) != 0) == some_lane_is(w as u64, 4, 0),
{
    assert((w.wrapping_sub((LO as u32)) & !w & (HI as u32) != 0) == some_lane_is(w as u64, 4, 0))
        by (bit_vector);
}

/// The low mask times a byte fits the word and has the byte in every lane.
proof fn lemma_splat_u32(byte: u8)
    ensures
        (LO as u32) * byte == 0x0101_0101 * byte <= u32::MAX,
        each_lane_is((0x0101_0101 * byte) as u64, 4, byte),
{
    assert((LO as u32) * byte == 0x0101_0101 * byte && 0x0101_0101 * byte <= u32::MAX) by (bit_vector);
    assert(each_lane_is(((0x0101_0101 * byte) as u32) as u64, 4, byte)) by (bit_vector);
}

/// Against a word `b` with `byte` in every lane: a word equals `b` exactly
/// when each of its lanes is `byte`, and its difference from `b` by xor has
/// a zero lane exactly where it has `byte`.
proof fn lemma_lanes_u32(a: u32, b: u32, byte: u8)
    ensures
        each_lane_is(b as u64, 4, byte) ==> (a == b <==> each_lane_is(a as u64, 4, byte)),
        each_lane_is(b as u64, 4, byte) ==> (some_lane_is((a ^ b) as u64, 4, 0)
            <==> some_lane_is(a as u64, 4, byte)),
{
    assert(each_lane_is(b as u64, 4, byte) ==> (a == b <==> each_lane_is(a as u64, 4, byte)))
        by (bit_vector);
    assert(each_lane_is(b as u64, 4, byte) ==> (some_lane_is((a ^ b) as u64, 4, 0)
        <==> some_lane_is(a as u64, 4, byte))) by (bit_vector);
}

/// A 32-bit word is zero exactly when all four of its bytes are.
pub proof fn zero_word_u32(w: u32)
    ensures
        (w == 0) == all_zero(w.bytes()),
{
    assert(each_lane_is(0, 4, 0)) by (bit_vector);
    lemma_lanes_u32(w, 0, 0);
    lemma_each_lane(w as u64, 4, 0);
    zero_is_a_byte(w.bytes());
}

impl Bytes for u32 {
    open spec fn bytes(&self) -> Seq<u8> {
        lanes(*self as u64, 4)
    }

    fn is(&self, byte: u8) -> (r: bool) {
        let s = <u32 as SizedBytes>::splat(byte);
        proof {
            lemma_each_lane(s as u64, 4, byte);
            lemma_each_lane(*self as u64, 4, byte);
            lemma_lanes_u32(*self, s, byte);
        }
        *self == s
    }

    fn contains(&self, byte: u8) -> (r: bool) {
        let s = <u32 as SizedBytes>::splat(byte);
        proof {
            lemma_each_lane(s as u64, 4, byte);
            lemma_some_lane(*self as u64, 4, byte);
            lemma_some_lane((*self ^ s) as u64, 4, 0);
            lemma_lanes_u32(*self, s, byte);
        }
        (*self ^ s).contains_zero()
    }

    fn contains_zero(&self) -> (r: bool) {
        proof {
            lemma_zero_lane_u32(*self);
            lemma_some_lane(*self as u64, 4, 0);
        }
        self.wrapping_sub(#[verifier::truncate] (LO as u32)) & !*self & #[verifier::truncate] (HI as u32) != 0
    }
}

impl SizedBytes for u32 {
    open spec fn width() -> nat {
        4
    }

    proof fn width_is_exact(&self) {
    }

    fn splat(byte: u8) -> (r: u32)
        ensures
            r == 0x0101_0101 * byte,
    {
        proof {
            lemma_splat_u32(byte);
            lemma_each_lane((0x0101_0101 * byte) as u64, 4, byte);
        }
        // Spread `byte`'s bits across each starting bit in `LO`
        let r = #[verifier::truncate] (LO as u32) * (byte as u32);
        assert(r.bytes() =~= repeated(byte, <u32 as SizedBytes>::width()));
        r
    }
}

/// The zero-lane detector: taking one from every lane borrows through a
/// lane's top bit only where the lane was zero or the borrow came from a
/// zero lane below, and the lanes whose top bit was set before are masked
/// out, so that a bit is left exactly when some lane is zero.
proof fn lemma_zero_lane_u64(w: u64)
    ensures
        (w.wrapping_sub(LO) & !w & HI != 0) == some_lane_is(w, 8, 0),
{
    assert((w.wrapping_sub(LO) & !w & HI != 0) == some_lane_is(w, 8, 0))
        by (bit_vector);
}

/// The low mask times a byte fits the word and has the byte in every lane.
proof fn lemma_splat_u64(byte: u8)
    ensures
        LO * byte <= u64::MAX,
        each_lane_is((LO * byte) as u64, 8, byte),
{
    assert(each_lane_is((LO * byte) as u64, 8, byte)) by (bit_vector);
}

/// Against a word `b` with `byte` in every lane: a word equals `b` exactly
/// when each of its lanes is `byte`, and its difference from `b` by xor has
/// a zero lane exactly where it has `byte`.
proof fn lemma_lanes_u64(a: u64, b: u64, byte: u8)
    ensures
        each_lane_is(b, 8, byte) ==> (a == b <==> each_lane_is(a, 8, byte)),
        each_lane_is(b, 8, byte) ==> (some_lane_is(a ^ b, 8, 0)
            <==> some_lane_is(a, 8, byte)),
{
    assert(each_lane_is(b, 8, byte) ==> (a == b <==> each_lane_is(a, 8, byte)))
        by (bit_vector);
    assert(each_lane_is(b, 8, byte) ==> (some_lane_is(a ^ b, 8, 0)
        <==> some_lane_is(a, 8, byte))) by (bit_vector);
}

/// A 64-bit word is zero exactly when all eight of its bytes are.
pub proof fn zero_word_u64(w: u64)
    ensures
        (w == 0) == all_zero(w.bytes()),
{
    assert(each_lane_is(0, 8, 0)) by (bit_vector);
    lemma_lanes_u64(w, 0, 0);
    lemma_each_lane(w, 8, 0);
    zero_is_a_byte(w.bytes());
}

impl Bytes for u64 {
    open spec fn bytes(&self) -> Seq<u8> {
        lanes(*self, 8)
    }

    fn is(&self, byte: u8) -> (r: bool) {
        let s = <u64 as SizedBytes>::splat(byte);
        proof {
            lemma_each_lane(s, 8, byte);
            lemma_each_lane(*self, 8, byte);
            lemma_lanes_u64(*self, s, byte);
        }
        *self == s
    }

    fn contains(&self, byte: u8) -> (r: bool) {
        let s = <u64 as SizedBytes>::splat(byte);
        proof {
            lemma_each_lane(s, 8, byte);
            lemma_some_lane(*self, 8, byte);
            lemma_some_lane(*self ^ s, 8, 0);
            lemma_lanes_u64(*self, s, byte);
        }
        (*self ^ s).contains_zero()
    }

    fn contains_zero(&self) -> (r: bool) {
        proof {
            lemma_zero_lane_u64(*self);
            lemma_some_lane(*self, 8, 0);
        }
        self.wrapping_sub(LO) & !*self & HI != 0
    }
}

impl SizedBytes for u64 {
    open spec fn width() -> nat {
        8
    }

    proof fn width_is_exact(&self) {
    }

    fn splat(byte: u8) -> (r: u64)
        ensures
            r == LO * byte,
    {
        proof {
            lemma_splat_u64(byte);
            lemma_each_lane((LO * byte) as u64, 8, byte);
        }
        // Spread `byte`'s bits across each starting bit in `LO`
        let r = LO * (byte as u64);
        assert(r.bytes() =~= repeated(byte, <u64 as SizedBytes>::width()));
        r
    }
}

/// A word of the machine's width is taken at that width: as a 32-bit word
/// where `usize` has 32 bits, and as a 64-bit word otherwise.
impl Bytes for usize {
    open spec fn bytes(&self) -> Seq<u8> {
        lanes(*self as u64, (usize::BITS / 8) as nat)
    }

    fn is(&self, byte: u8) -> (r: bool) {
        if usize::BITS == 32 {
            (*self as u32).is(byte)
        } else {
            (*self as u64).is(byte)
        }
    }

    fn contains(&self, byte: u8) -> (r: bool) {
        if usize::BITS == 32 {
            (*self as u32).contains(byte)
        } else {
            (*self as u64).contains(byte)
        }
    }

    fn contains_zero(&self) -> (r: bool) {
        if usize::BITS == 32 {
            (*self as u32).contains_zero()
        } else {
            (*self as u64).contains_zero()
        }
    }
}

impl SizedBytes for usize {
    open spec fn width() -> nat {
        (usize::BITS / 8) as nat
    }

    proof fn width_is_exact(&self) {
    }

    fn splat(byte: u8) -> (r: usize) {
        if usize::BITS == 32 {
            <u32 as SizedBytes>::splat(byte) as usize
        } else {
            <u64 as SizedBytes>::splat(byte) as usize
        }
    }
}

/// A signed word stands for the bytes of the unsigned word with the same
/// bits.
impl Bytes for i16 {
    open spec fn bytes(&self) -> Seq<u8> {
        (*self as u16).bytes()
    }

    fn is(&self, byte: u8) -> (r: bool) {
        (*self as u16).is(byte)
    }

    fn contains(&self, byte: u8) -> (r: bool) {
        (*self as u16).contains(byte)
    }

    fn contains_zero(&self) -> (r: bool) {
        (*self as u16).contains_zero()
    }
}

impl SizedBytes for i16 {
    open spec fn width() -> nat {
        2
    }

    proof fn width_is_exact(&self) {
    }

    fn splat(byte: u8) -> (r: i16) {
        let s = <u16 as SizedBytes>::splat(byte);
        assert((s as i16) as u16 == s) by (bit_vector);
        s as i16
    }
}

/// A signed word stands for the bytes of the unsigned word with the same
/// bits.
impl Bytes for i32 {
    open spec fn bytes(&self) -> Seq<u8> {
        (*self as u32).bytes()
    }

    fn is(&self, byte: u8) -> (r: bool) {
        (*self as u32).is(byte)
    }

    fn contains(&self, byte: u8) -> (r: bool) {
        (*self as u32).contains(byte)
    }

    fn contains_zero(&self) -> (r: bool) {
        (*self as u32).contains_zero()
    }
}

impl SizedBytes for i32 {
    open spec fn width() -> nat {
        4
    }

    proof fn width_is_exact(&self) {
    }

    fn splat(byte: u8) -> (r: i32) {
        let s = <u32 as SizedBytes>::splat(byte);
        assert((s as i32) as u32 == s) by (bit_vector);
        s as i32
    }
}

/// A signed word stands for the bytes of the unsigned word with the same
/// bits.
impl Bytes for i64 {
    open spec fn bytes(&self) -> Seq<u8> {
        (*self as u64).bytes()
    }

    fn is(&self, byte: u8) -> (r: bool) {
        (*self as u64).is(byte)
    }

    fn contains(&self, byte: u8) -> (r: bool) {
        (*self as u64).contains(byte)
    }

    fn contains_zero(&self) -> (r: bool) {
        (*self as u64).contains_zero()
    }
}

impl SizedBytes for i64 {
    open spec fn width() -> nat {
        8
    }

    proof fn width_is_exact(&self) {
    }

    fn splat(byte: u8) -> (r: i64) {
        let s = <u64 as SizedBytes>::splat(byte);
        assert((s as i64) as u64 == s) by (bit_vector);
        s as i64
    }
}

/// A signed word stands for the bytes of the unsigned word with the same
/// bits.
impl Bytes for isize {
    open spec fn bytes(&self) -> Seq<u8> {
        (*self as usize).bytes()
    }

    fn is(&self, byte: u8) -> (r: bool) {
        (*self as usize).is(byte)
    }

    fn contains(&self, byte: u8) -> (r: bool) {
        (*self as usize).contains(byte)
    }

    fn contains_zero(&self) -> (r: bool) {
        (*self as usize).contains_zero()
    }
}

impl SizedBytes for isize {
    open spec fn width() -> nat {
        (usize::BITS / 8) as nat
    }

    proof fn width_is_exact(&self) {
    }

    fn splat(byte: u8) -> (r: isize) {
        let s = <usize as SizedBytes>::splat(byte);
        assert((s as isize) as usize == s) by (bit_vector);
        s as isize
    }
}

} // verus!
