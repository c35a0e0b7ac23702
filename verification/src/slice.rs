//! Byte sequences whose length is known only when they are scanned.

use vstd::prelude::*;
use crate::batch::batch_align;
use crate::Bytes;

verus! {

/// Returns whether every byte of `s` is `byte`, one byte at a time.
fn every_byte_is(s: &[u8], byte: u8) -> (r: bool)
    ensures
        r == (forall|i: int| 0 <= i < s@.len() ==> s@[i] == byte),
{
    let mut k: usize = 0;
    while k < s.len()
        invariant
            k <= s@.len(),
            forall|i: int| 0 <= i < k ==> s@[i] == byte,
        decreases s@.len() - k,
    {
        if !s[k].is(byte) {
            assert(s@[k as int].bytes()[0] == s@[k as int]);
            return false;
        }
        assert(s@[k as int].bytes()[0] == s@[k as int]);
        k += 1;
    }
    true
}

/// Returns whether some byte of `s` is `byte`, one byte at a time.
fn some_byte_is(s: &[u8], byte: u8) -> (r: bool)
    ensures
        r == (exists|i: int| 0 <= i < s@.len() && s@[i] == byte),
{
    let mut k: usize = 0;
    while k < s.len()
        invariant
            k <= s@.len(),
            forall|i: int| 0 <= i < k ==> s@[i] != byte,
        decreases s@.len() - k,
    {
        if s[k].contains(byte) {
            assert(s@[k as int].bytes()[0] == s@[k as int]);
            return true;
        }
        assert(s@[k as int].bytes()[0] == s@[k as int]);
        k += 1;
    }
    false
}

/// Returns whether every byte of `b` is `byte`, for a buffer that starts at
/// `address`. The batch words of `b` are compared first, then the bytes
/// before and behind them. The answer is the same at every address, and is
/// `true` for an empty buffer.
pub fn is_batched(b: &[u8], address: usize, byte: u8) -> (r: bool)
    ensures
        r == (forall|i: int| 0 <= i < b@.len() ==> b@[i] == byte),
{
    let (head, body, tail) = batch_align(b, address);
    let ghost d1 = head@.len() as int;
    let ghost d2 = d1 + body.bytes().len();

    if !body.all_are(byte) {
        proof {
            let j = choose|j: int| 0 <= j < body.bytes().len() && body.bytes()[j] != byte;
            assert(b@[d1 + j] != byte);
        }
        return false;
    }
    if !every_byte_is(head, byte) {
        proof {
            let j = choose|j: int| 0 <= j < head@.len() && head@[j] != byte;
            assert(b@[j] != byte);
        }
        return false;
    }
    if !every_byte_is(tail, byte) {
        proof {
            let j = choose|j: int| 0 <= j < tail@.len() && tail@[j] != byte;
            assert(b@[d2 + j] != byte);
        }
        return false;
    }
    assert forall|i: int| 0 <= i < b@.len() implies b@[i] == byte by {
        if i < d1 {
            assert(head@[i] == byte);
        } else if i < d2 {
            assert(body.bytes()[i - d1] == byte);
        } else {
            assert(tail@[i - d2] == byte);
        }
    }
    true
}

/// Returns whether `b` contains `byte`, for a buffer that starts at
/// `address`. The batch words of `b` are searched first, then the bytes
/// before and behind them. The answer is the same at every address.
pub fn contains_batched(b: &[u8], address: usize, byte: u8) -> (r: bool)
    ensures
        r == crate::has_byte(b@, byte),
{
    let (head, body, tail) = batch_align(b, address);
    let ghost d1 = head@.len() as int;
    let ghost d2 = d1 + body.bytes().len();

    if body.any_contains(byte) {
        proof {
            let j = choose|j: int| 0 <= j < body.bytes().len() && body.bytes()[j] == byte;
            assert(b@[d1 + j] == byte);
        }
        return true;
    }
    if some_byte_is(head, byte) {
        proof {
            let j = choose|j: int| 0 <= j < head@.len() && head@[j] == byte;
            assert(b@[j] == byte);
        }
        return true;
    }
    if some_byte_is(tail, byte) {
        proof {
            let j = choose|j: int| 0 <= j < tail@.len() && tail@[j] == byte;
            assert(b@[d2 + j] == byte);
        }
        return true;
    }
    assert forall|i: int| 0 <= i < b@.len() implies b@[i] != byte by {
        if i < d1 {
            assert(head@[i] != byte);
        } else if i < d2 {
            assert(body.bytes()[i - d1] != byte);
        } else {
            assert(tail@[i - d2] != byte);
        }
    }
    false
}

/// The address at which the bytes of `b` lie in memory, from
/// `<[u8]>::as_ptr`. Nothing is claimed of it: where a buffer lies is not a
/// matter of its contents.
#[verifier::external_body]
fn address_of(b: &[u8]) -> (address: usize) {
    b.as_ptr() as usize
}

impl Bytes for [u8] {
    open spec fn bytes(&self) -> Seq<u8> {
        self@
    }

    fn is(&self, byte: u8) -> (r: bool) {
        assert(self.bytes() == self@);
        if self.is_empty() {
            return false;
        }
        is_batched(self, address_of(self), byte)
    }

    fn contains(&self, byte: u8) -> (r: bool) {
        assert(self.bytes() == self@);
        if self.is_empty() {
            return false;
        }
        contains_batched(self, address_of(self), byte)
    }
}

} // verus!
