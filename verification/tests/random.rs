use byte_ops::Bytes;
use rand::{thread_rng, Rng};

fn every_byte(mut f: impl FnMut(u8)) {
    let mut n = 0u8;
    loop {
        f(n);
        if n == u8::max_value() {
            break;
        } else {
            n += 1;
        }
    }
}

#[test]
fn array_contains() {
    let mut rng = thread_rng();

    let arr: [u8; 2] = rng.gen();
    every_byte(|n| {
        assert_eq!(arr.contains(n), arr[..].contains(&n));
    });
    let arr: [u8; 4] = rng.gen();
    every_byte(|n| {
        assert_eq!(arr.contains(n), arr[..].contains(&n));
    });
    let arr: [u8; 8] = rng.gen();
    every_byte(|n| {
        assert_eq!(arr.contains(n), arr[..].contains(&n));
    });
    let arr: [u8; 16] = rng.gen();
    every_byte(|n| {
        assert_eq!(arr.contains(n), arr[..].contains(&n));
    });
    let arr: [u8; 32] = rng.gen();
    every_byte(|n| {
        assert_eq!(arr.contains(n), arr[..].contains(&n));
    });
}

#[test]
fn slice() {
    const UNALIGNED: usize = 27;

    let array: [u8; UNALIGNED] = rand::random();
    let slice = &array[..];

    for &byte in slice {
        assert!(
            Bytes::contains(slice, byte),
            "{:?} does not contain {:?}",
            slice,
            byte
        );
        assert!(
            !Bytes::is(slice, !byte),
            "{:?} all equals {:?}",
            slice,
            byte
        );
    }

    for f in &[Bytes::is, Bytes::contains] {
        let empty = &[0u8; 0][..];
        assert!(!f(empty, 0));
    }

    for f in &[Bytes::is, Bytes::contains] {
        const VALUE: u8 = 42;
        const SLICE: &[u8] = &[VALUE; UNALIGNED];
        assert!(f(SLICE, VALUE));
    }
}

#[test]
fn array_is_matches_a_plain_scan() {
    let mut rng = thread_rng();
    for _ in 0..64 {
        let arr: [u8; 8] = if rng.gen() { [rng.gen(); 8] } else { rng.gen() };
        every_byte(|n| {
            assert_eq!(arr.is(n), arr.iter().all(|&b| b == n));
        });
    }
}

#[test]
fn words_match_a_plain_scan_of_their_bytes() {
    let mut rng = thread_rng();
    for _ in 0..256 {
        let w: u64 = rng.gen::<u64>() | rng.gen::<u64>();
        let bytes = w.to_le_bytes();
        every_byte(|n| {
            assert_eq!(w.contains(n), bytes[..].contains(&n));
            assert_eq!(w.is(n), bytes.iter().all(|&b| b == n));
        });
        assert_eq!(w.contains_zero(), bytes[..].contains(&0));
        let v: u32 = rng.gen::<u32>() | rng.gen::<u32>();
        let bytes = v.to_le_bytes();
        every_byte(|n| {
            assert_eq!(v.contains(n), bytes[..].contains(&n));
        });
        assert_eq!(v.contains_zero(), bytes[..].contains(&0));
    }
}

#[test]
fn slices_of_every_length_match_a_plain_scan() {
    let mut rng = thread_rng();
    let mut data = [0u8; 96];
    for len in 0..data.len() {
        for b in data.iter_mut() {
            *b = rng.gen_range(0..4);
        }
        let s = &data[..len];
        for n in 0..5u8 {
            assert_eq!(Bytes::contains(s, n), s.contains(&n));
            assert_eq!(Bytes::is(s, n), !s.is_empty() && s.iter().all(|&b| b == n));
        }
    }
}
