//! The batch word, and the split of a buffer into an unaligned head, an
//! aligned run of whole batch words, and an unaligned tail.

use vstd::prelude::*;
use crate::scalar::lane;
use crate::{has_byte, Bytes};

verus! {

/// The unit in which the bulk of a buffer is compared.
pub type Batch = u64;

/// The number of bytes in a [`Batch`], which is also the alignment that a
/// run of batch words starts at.
pub const ALIGN: usize = 8;

/// Where the tail of a buffer of `len` bytes at `address` starts: the buffer
/// without the bytes behind the last aligned address in it.
pub open spec fn tail_start(address: int, len: int) -> int {
    let end_rem = (address + len) % (ALIGN as int);
    if len >= end_rem {
        len - end_rem
    } else {
        0
    }
}

/// The length of the head of a buffer of `len` bytes at `address`: the bytes
/// before the first aligned address, but never more than lie before the tail.
pub open spec fn head_len(address: int, len: int) -> int {
    let to_aligned = (ALIGN - address % (ALIGN as int)) % (ALIGN as int);
    if to_aligned <= tail_start(address, len) {
        to_aligned
    } else {
        tail_start(address, len)
    }
}

/// The split points cut any buffer into a head and a tail that are each
/// shorter than a batch word, and a body of whole batch words in between.
/// A body that is not empty starts at an aligned address, and a buffer
/// shorter than a batch word has an empty body.
pub proof fn partition_invariant(address: int, len: int)
    requires
        0 <= address,
        0 <= len,
    ensures
        0 <= head_len(address, len) <= tail_start(address, len) <= len,
        head_len(address, len) < ALIGN,
        len - tail_start(address, len) < ALIGN,
        (tail_start(address, len) - head_len(address, len)) % (ALIGN as int) == 0,
        head_len(address, len) + ALIGN * ((tail_start(address, len) - head_len(address, len))
            / (ALIGN as int)) + (len - tail_start(address, len)) == len,
        head_len(address, len) < tail_start(address, len) ==> (address + head_len(address, len))
            % (ALIGN as int) == 0,
        len < ALIGN ==> head_len(address, len) == tail_start(address, len),
{
}

/// Whatever the address, the head, the body and the tail put together are
/// the buffer: the split moves no byte and drops none.
pub proof fn partition_covers(s: Seq<u8>, address: int)
    requires
        0 <= address,
    ensures
        s.subrange(0, head_len(address, s.len() as int)) + s.subrange(
            head_len(address, s.len() as int),
            tail_start(address, s.len() as int),
        ) + s.subrange(tail_start(address, s.len() as int), s.len() as int) == s,
{
    partition_invariant(address, s.len() as int);
}

/// Reads the batch word whose bytes are the `ALIGN` bytes of `b` from `at`
/// on, the first of them in the lowest lane.
pub fn load(b: &[u8], at: usize) -> (w: Batch)
    requires
        at + ALIGN <= b@.len(),
    ensures
        w.bytes() == b@.subrange(at as int, at + ALIGN),
{
    let b0 = b[at];
    let b1 = b[at + 1];
    let b2 = b[at + 2];
    let b3 = b[at + 3];
    let b4 = b[at + 4];
    let b5 = b[at + 5];
    let b6 = b[at + 6];
    let b7 = b[at + 7];
    let w = (b0 as u64) | (b1 as u64) << 8 | (b2 as u64) << 16 | (b3 as u64) << 24 | (b4 as u64)
        << 32 | (b5 as u64) << 40 | (b6 as u64) << 48 | (b7 as u64) << 56;
    proof {
        assert(lane(w, 0) == b0 && lane(w, 1) == b1 && lane(w, 2) == b2 && lane(w, 3) == b3 && lane(
            w,
            4,
        ) == b4 && lane(w, 5) == b5 && lane(w, 6) == b6 && lane(w, 7) == b7) by (bit_vector)
            requires
                w == (b0 as u64) | (b1 as u64) << 8 | (b2 as u64) << 16 | (b3 as u64) << 24 | (
                b4 as u64) << 32 | (b5 as u64) << 40 | (b6 as u64) << 48 | (b7 as u64) << 56,
        ;
        assert(w.bytes() =~= b@.subrange(at as int, at + ALIGN));
    }
    w
}

/// A run of whole batch words, held as the bytes they are made of.
pub struct Batches<'a> {
    bytes: &'a [u8],
}

impl<'a> Batches<'a> {
    #[verifier::type_invariant]
    spec fn whole_words(self) -> bool {
        self.bytes@.len() % (ALIGN as nat) == 0
    }

    /// The bytes of all the words, in order.
    pub closed spec fn bytes(self) -> Seq<u8> {
        self.bytes@
    }

    /// Takes `bytes` as a run of batch words, where they make up whole words.
    pub fn whole(bytes: &'a [u8]) -> (run: Option<Batches<'a>>)
        ensures
            run is Some <==> bytes@.len() % (ALIGN as nat) == 0,
            run matches Some(words) ==> words.bytes() == bytes@,
    {
        if bytes.len() % ALIGN == 0 {
            Some(Batches { bytes })
        } else {
            None
        }
    }

    /// Takes `bytes`, which make up whole words, as a run of batch words.
    pub fn exact(bytes: &'a [u8]) -> (words: Batches<'a>)
        requires
            bytes@.len() % (ALIGN as nat) == 0,
        ensures
            words.bytes() == bytes@,
    {
        Batches { bytes }
    }

    /// The number of words.
    pub open spec fn count(self) -> nat {
        self.bytes().len() / (ALIGN as nat)
    }

    /// The bytes of word `i`.
    pub open spec fn word(self, i: int) -> Seq<u8> {
        self.bytes().subrange(ALIGN * i, ALIGN * i + ALIGN)
    }

    /// The number of words.
    pub fn len(&self) -> (n: usize)
        ensures
            n == self.count(),
            n * ALIGN == self.bytes().len(),
    {
        proof {
            use_type_invariant(self);
        }
        self.bytes.len() / ALIGN
    }

    /// Word `i`.
    pub fn get(&self, i: usize) -> (w: Batch)
        requires
            i < self.count(),
        ensures
            w.bytes() == self.word(i as int),
    {
        let n = self.bytes.len();
        assert(i * ALIGN + ALIGN <= n);
        load(self.bytes, i * ALIGN)
    }

    /// Returns whether every word is made of `byte` alone, which holds of
    /// an empty run. Stops at the first word that is not.
    pub fn all_are(&self, byte: u8) -> (r: bool)
        ensures
            r == (forall|i: int| 0 <= i < self.bytes().len() ==> self.bytes()[i] == byte),
    {
        let n = self.len();
        let mut k: usize = 0;
        while k < n
            invariant
                n == self.count(),
                n * ALIGN == self.bytes().len(),
                k <= n,
                forall|i: int| 0 <= i < k * ALIGN ==> self.bytes()[i] == byte,
            decreases n - k,
        {
            let word = self.get(k);
            if !word.is(byte) {
                proof {
                    let j = choose|j: int| 0 <= j < ALIGN && self.word(k as int)[j] != byte;
                    assert(self.bytes()[ALIGN * k + j] != byte);
                }
                return false;
            }
            assert forall|i: int| 0 <= i < (k + 1) * ALIGN implies self.bytes()[i] == byte by {
                if i >= k * ALIGN {
                    assert(self.word(k as int)[i - ALIGN * k] == byte);
                }
            }
            k += 1;
        }
        true
    }

    /// Returns whether some word holds `byte`. Stops at the first that does.
    pub fn any_contains(&self, byte: u8) -> (r: bool)
        ensures
            r == has_byte(self.bytes(), byte),
    {
        let n = self.len();
        let mut k: usize = 0;
        while k < n
            invariant
                n == self.count(),
                n * ALIGN == self.bytes().len(),
                k <= n,
                forall|i: int| 0 <= i < k * ALIGN ==> self.bytes()[i] != byte,
            decreases n - k,
        {
            let word = self.get(k);
            if word.contains(byte) {
                proof {
                    let j = choose|j: int| 0 <= j < ALIGN && self.word(k as int)[j] == byte;
                    assert(self.bytes()[ALIGN * k + j] == byte);
                }
                return true;
            }
            assert forall|i: int| 0 <= i < (k + 1) * ALIGN implies self.bytes()[i] != byte by {
                if i >= k * ALIGN {
                    assert(self.word(k as int)[i - ALIGN * k] != byte);
                }
            }
            k += 1;
        }
        false
    }
}

/// Computes the two points at which a buffer of `len` bytes at `address` is
/// cut: the end of its head and the start of its tail.
pub fn split_points(address: usize, len: usize) -> (cut: (usize, usize))
    ensures
        cut.0 == head_len(address as int, len as int),
        cut.1 == tail_start(address as int, len as int),
{
    let align_rem = address % ALIGN;
    let align_end = address.wrapping_add(len) % ALIGN;
    assert(align_end == (address + len) % (ALIGN as int));

    let d2 = len.saturating_sub(align_end);
    let to_aligned = (ALIGN - align_rem) % ALIGN;
    let d1 = if to_aligned <= d2 {
        to_aligned
    } else {
        d2
    };
    (d1, d2)
}

/// Splits `b`, which starts at `address`, into the head before the first
/// aligned address, the batch words from there on, and the tail that is left
/// behind the last whole word.
pub fn batch_align(b: &[u8], address: usize) -> (parts: (&[u8], Batches<'_>, &[u8]))
    ensures
        parts.0@ == b@.subrange(0, head_len(address as int, b@.len() as int)),
        parts.1.bytes() == b@.subrange(
            head_len(address as int, b@.len() as int),
            tail_start(address as int, b@.len() as int),
        ),
        parts.2@ == b@.subrange(tail_start(address as int, b@.len() as int), b@.len() as int),
        parts.0@.len() + ALIGN * parts.1.count() + parts.2@.len() == b@.len(),
        parts.1.bytes().len() == ALIGN * parts.1.count(),
        parts.0@.len() < ALIGN,
        parts.2@.len() < ALIGN,
        parts.1.count() > 0 ==> (address + parts.0@.len()) % (ALIGN as int) == 0,
        b@.len() < ALIGN ==> parts.1.count() == 0,
{
    let (d1, d2) = split_points(address, b.len());
    proof {
        partition_invariant(address as int, b@.len() as int);
    }

    let (init, tail) = b.split_at(d2);
    let (head, mid) = init.split_at(d1);

    (head, Batches { bytes: mid }, tail)
}

} // verus!
