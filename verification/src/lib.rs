//! Byte scanning primitives: is every byte of a sequence equal to a given
//! byte, and does a sequence contain a given byte.

use vstd::prelude::*;

pub mod array;
pub mod batch;
pub mod large;
pub mod multi;
pub mod scalar;
pub mod slice;
pub mod small;

verus! {

/// True iff `s` is non-empty and every byte of `s` equals `byte`.
pub open spec fn all_equal(s: Seq<u8>, byte: u8) -> bool {
    s.len() > 0 && forall|i: int| 0 <= i < s.len() ==> s[i] == byte
}

/// True iff some byte of `s` equals `byte`.
pub open spec fn has_byte(s: Seq<u8>, byte: u8) -> bool {
    exists|i: int| 0 <= i < s.len() && s[i] == byte
}

/// True iff `s` is non-empty and holds nothing but zero bytes.
pub open spec fn all_zero(s: Seq<u8>) -> bool {
    s.len() > 0 && forall|i: int| 0 <= i < s.len() ==> s[i] == 0
}

/// True iff `s` holds a zero byte.
pub open spec fn has_zero(s: Seq<u8>) -> bool {
    exists|i: int| 0 <= i < s.len() && s[i] == 0
}

/// The sequence of `n` bytes that are all `byte`.
pub open spec fn repeated(byte: u8, n: nat) -> Seq<u8> {
    Seq::new(n, |i: int| byte)
}

/// Whether every byte of `s` is `byte`, found by looking at the bytes one
/// after the other from the first on.
pub open spec fn scan_is(s: Seq<u8>, byte: u8) -> bool
    decreases s.len(),
{
    if s.len() == 0 {
        true
    } else {
        s[0] == byte && scan_is(s.drop_first(), byte)
    }
}

/// Whether `s` holds `byte`, found by looking at the bytes one after the
/// other from the first on.
pub open spec fn scan_contains(s: Seq<u8>, byte: u8) -> bool
    decreases s.len(),
{
    if s.len() == 0 {
        false
    } else {
        s[0] == byte || scan_contains(s.drop_first(), byte)
    }
}

/// A byte-by-byte scan finds `byte` in `s` exactly when `s` has it, and
/// finds nothing but `byte` in a sequence that is not empty exactly when
/// all of that sequence equals `byte`.
pub proof fn agrees_with_scan(s: Seq<u8>, byte: u8)
    ensures
        has_byte(s, byte) == scan_contains(s, byte),
        s.len() > 0 ==> all_equal(s, byte) == scan_is(s, byte),
        scan_is(s, byte) == (forall|i: int| 0 <= i < s.len() ==> s[i] == byte),
    decreases s.len(),
{
    if s.len() > 0 {
        let rest = s.drop_first();
        agrees_with_scan(rest, byte);
        assert forall|i: int| 0 <= i < rest.len() implies rest[i] == s[i + 1] by {}
        if scan_is(rest, byte) && s[0] == byte {
            assert forall|i: int| 0 <= i < s.len() implies s[i] == byte by {
                if i > 0 {
                    assert(rest[i - 1] == byte);
                }
            }
        }
        if forall|i: int| 0 <= i < s.len() ==> s[i] == byte {
            assert forall|i: int| 0 <= i < rest.len() implies rest[i] == byte by {
                assert(s[i + 1] == byte);
            }
        }
        if has_byte(rest, byte) {
            let i = choose|i: int| 0 <= i < rest.len() && rest[i] == byte;
            assert(s[i + 1] == byte);
        }
        if has_byte(s, byte) && s[0] != byte {
            let i = choose|i: int| 0 <= i < s.len() && s[i] == byte;
            assert(rest[i - 1] == byte);
        }
    }
}

/// An empty sequence is not made of any byte, and holds none.
pub proof fn empty_has_no_byte(s: Seq<u8>, byte: u8)
    requires
        s.len() == 0,
    ensures
        !all_equal(s, byte),
        !has_byte(s, byte),
        !all_zero(s),
        !has_zero(s),
{
}

/// To ask for zero bytes is to ask for the byte 0.
pub proof fn zero_is_a_byte(s: Seq<u8>)
    ensures
        all_zero(s) == all_equal(s, 0),
        has_zero(s) == has_byte(s, 0),
{
}

/// A type that can be treated as a sequence of bytes.
pub trait Bytes {
    /// The byte sequence that `self` stands for.
    spec fn bytes(&self) -> Seq<u8>;

    /// Returns whether every byte in `self` is `byte`.
    fn is(&self, byte: u8) -> (r: bool)
        ensures
            r == all_equal(self.bytes(), byte),
    ;

    /// Returns whether every byte in `self` is zero.
    fn is_zero(&self) -> (r: bool)
        ensures
            r == all_zero(self.bytes()),
    {
        proof {
            zero_is_a_byte(self.bytes());
        }
        self.is(0)
    }

    /// Returns whether `self` contains `byte`.
    fn contains(&self, byte: u8) -> (r: bool)
        ensures
            r == has_byte(self.bytes(), byte),
    ;

    /// Returns whether `self` contains a zero byte.
    fn contains_zero(&self) -> (r: bool)
        ensures
            r == has_zero(self.bytes()),
    {
        proof {
            zero_is_a_byte(self.bytes());
        }
        self.contains(0)
    }
}

/// A type that can be treated as a statically-sized sequence of bytes.
pub trait SizedBytes: Sized + Bytes {
    /// The number of bytes that every value of the type stands for.
    spec fn width() -> nat;

    /// Every value of the type stands for exactly `width()` bytes.
    proof fn width_is_exact(&self)
        ensures
            self.bytes().len() == Self::width(),
    ;

    /// Creates a new instance with `byte` duplicated over all bytes.
    fn splat(byte: u8) -> (r: Self)
        ensures
            r.bytes() == repeated(byte, Self::width()),
    ;
}

impl Bytes for u8 {
    open spec fn bytes(&self) -> Seq<u8> {
        seq![*self]
    }

    fn is(&self, byte: u8) -> (r: bool) {
        assert(self.bytes()[0] == *self);
        *self == byte
    }

    fn contains(&self, byte: u8) -> (r: bool) {
        assert(self.bytes()[0] == *self);
        *self == byte
    }
}

impl SizedBytes for u8 {
    open spec fn width() -> nat {
        1
    }

    proof fn width_is_exact(&self) {
    }

    fn splat(byte: u8) -> (r: u8) {
        assert(byte.bytes() =~= repeated(byte, 1));
        byte
    }
}

} // verus!
