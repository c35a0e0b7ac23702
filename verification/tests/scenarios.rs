use byte_ops::array::{fixed_contains, fixed_is, fixed_is_zero};
use byte_ops::batch::{batch_align, load, split_points, Batches, ALIGN};
use byte_ops::large::{block_size, large_contains, large_is};
use byte_ops::multi::{multi_contains, multi_is};
use byte_ops::scalar::{HI, LO};
use byte_ops::slice::{contains_batched, is_batched};
use byte_ops::small::{load16, load32, small_contains, small_is, small_is_zero};
use byte_ops::{Bytes, SizedBytes};

#[test]
fn is_on_four_equal_bytes() {
    assert!([0xFFu8, 0xFF, 0xFF, 0xFF].is(0xFF));
    assert!(!Bytes::is(&[0xFFu8, 0xFF, 0x00, 0xFF], 0xFF));
    assert!(Bytes::is(&[0xFFu8, 0xFF, 0xFF, 0xFF][..], 0xFF));
    assert!(!Bytes::is(&[0xFFu8, 0xFF, 0x00, 0xFF][..], 0xFF));
}

#[test]
fn contains_on_three_bytes() {
    let data: &[u8] = &[0x01, 0x02, 0x03];
    assert!(Bytes::contains(data, 0x02));
    assert!(!Bytes::contains(data, 0x09));
    assert!(Bytes::contains(&[0x01u8, 0x02, 0x03], 0x02));
    assert!(!Bytes::contains(&[0x01u8, 0x02, 0x03], 0x09));
}

#[test]
fn empty_slice_is_nothing_and_contains_nothing() {
    let empty: &[u8] = &[];
    for byte in 0..=255u8 {
        assert!(!Bytes::is(empty, byte));
        assert!(!Bytes::contains(empty, byte));
    }
    assert!(!empty.is_zero());
    assert!(!empty.contains_zero());
}

#[test]
fn empty_array_answers_as_the_empty_slice() {
    let empty: [u8; 0] = [];
    assert!(!empty.is(0));
    assert!(!Bytes::contains(&empty, 0));
    assert!(!empty.is_zero());
    assert!(!empty.contains_zero());
}

#[test]
fn buffer_of_27_equal_bytes() {
    let buffer = [42u8; 27];
    assert!(Bytes::is(&buffer[..], 42));
    assert!(Bytes::contains(&buffer[..], 42));
    assert!(!Bytes::is(&buffer[..], !42));
    assert!(!Bytes::contains(&buffer[..], !42));
    assert!(buffer.is(42));
    assert!(Bytes::contains(&buffer, 42));
}

#[test]
fn zero_queries_ask_for_the_byte_zero() {
    let cases: [&[u8]; 6] = [
        &[],
        &[0],
        &[0, 0, 0, 0, 0, 0, 0, 0, 0, 0, 0],
        &[1, 2, 3, 4, 5, 6, 7, 8, 9, 0, 11],
        &[1, 2, 3, 4, 5, 6, 7, 8, 9, 10, 11],
        &[0, 0, 0, 0, 0, 0, 0, 0, 0, 0, 7],
    ];
    for s in cases {
        assert_eq!(s.is_zero(), Bytes::is(s, 0));
        assert_eq!(s.contains_zero(), Bytes::contains(s, 0));
    }
    for w in [0u64, 1, 0x0100, 0xFFFF_FFFF_FFFF_FFFF, 0x00FF_FFFF_FFFF_FFFF, 0x0101_0101_0101_0101] {
        assert_eq!(w.is_zero(), w.is(0));
        assert_eq!(w.contains_zero(), w.contains(0));
    }
    for a in [[0u8, 0, 0, 0], [0, 0, 0, 1], [1, 1, 1, 1], [0x80, 0, 0, 0]] {
        assert_eq!(a.is_zero(), a.is(0));
        assert_eq!(a.contains_zero(), Bytes::contains(&a, 0));
    }
}

#[test]
fn answers_do_not_depend_on_where_the_buffer_lies() {
    let mut big = [7u8; 64];
    big[40] = 9;
    for len in [0usize, 1, 7, 8, 9, 16, 23, 24, 31] {
        for offset in 0..ALIGN {
            let s = &big[offset..offset + len];
            assert_eq!(Bytes::is(s, 7), len > 0, "offset {offset}, length {len}");
            assert_eq!(Bytes::contains(s, 7), len > 0);
            assert!(!Bytes::contains(s, 9));
            assert!(!Bytes::is(s, 9));
        }
    }
    let s = &big[33..48];
    for address in 0..64usize {
        assert!(!is_batched(s, address, 7));
        assert!(contains_batched(s, address, 7));
        assert!(contains_batched(s, address, 9));
        assert!(!contains_batched(s, address, 8));
        assert!(is_batched(&big[..40], address, 7));
    }
    assert!(is_batched(s, usize::MAX, 7) == false);
    assert!(contains_batched(s, usize::MAX - 3, 9));
}

#[test]
fn a_scan_of_nothing_finds_no_other_byte() {
    assert!(is_batched(&[], 5, 1));
    assert!(!contains_batched(&[], 5, 1));
}

#[test]
fn split_points_on_given_buffers() {
    assert_eq!(split_points(13, 27), (3, 27));
    assert_eq!(split_points(16, 27), (0, 24));
    assert_eq!(split_points(8, 0), (0, 0));
    assert_eq!(split_points(3, 4), (0, 0));
    assert_eq!(split_points(6, 4), (2, 2));
    assert_eq!(split_points(0, 4), (0, 0));
    assert_eq!(split_points(1, 7), (7, 7));
    assert_eq!(split_points(1, 15), (7, 15));
    assert_eq!(split_points(1, 16), (7, 15));
    assert_eq!(split_points(7, 100), (1, 97));
    assert_eq!(split_points(usize::MAX, 10), (1, 9));
    assert_eq!(split_points(usize::MAX - 7, usize::MAX), (0, usize::MAX - 7));
}

#[test]
fn the_three_parts_add_up_to_the_buffer() {
    let data: Vec<u8> = (0..100u8).collect();
    for len in 0..data.len() {
        for address in 0..2 * ALIGN {
            let b = &data[..len];
            let (head, body, tail) = batch_align(b, address);
            assert_eq!(head.len() + ALIGN * body.len() + tail.len(), len);
            assert!(head.len() < ALIGN);
            assert!(tail.len() < ALIGN);
            if len < ALIGN {
                assert_eq!(body.len(), 0);
            }
            if body.len() > 0 {
                assert_eq!((address + head.len()) % ALIGN, 0);
            }
            assert_eq!(head, &b[..head.len()]);
            assert_eq!(tail, &b[len - tail.len()..]);
            for i in 0..body.len() {
                let at = head.len() + ALIGN * i;
                let mut word = [0u8; 8];
                word.copy_from_slice(&b[at..at + ALIGN]);
                assert_eq!(body.get(i), u64::from_le_bytes(word));
            }
        }
    }
}

#[test]
fn batch_align_on_a_given_buffer() {
    let data: Vec<u8> = (1..=27u8).collect();
    let (head, body, tail) = batch_align(&data, 13);
    assert_eq!(head, &[1, 2, 3]);
    assert_eq!(body.len(), 3);
    assert_eq!(body.get(0), 0x0B0A_0908_0706_0504);
    assert_eq!(body.get(2), 0x1B1A_1918_1716_1514);
    assert!(tail.is_empty());
    let (head, body, tail) = batch_align(&data, 16);
    assert!(head.is_empty());
    assert_eq!(body.len(), 3);
    assert_eq!(tail, &[25, 26, 27]);
}

#[test]
fn runs_of_batch_words() {
    let data = [5u8; 24];
    assert!(Batches::whole(&data[..23]).is_none());
    assert!(Batches::whole(&data[..1]).is_none());
    let none = Batches::whole(&data[..0]).unwrap();
    assert_eq!(none.len(), 0);
    assert!(none.all_are(1));
    assert!(!none.any_contains(1));
    let words = Batches::whole(&data).unwrap();
    assert_eq!(words.len(), 3);
    assert_eq!(words.get(1), 0x0505_0505_0505_0505);
    assert!(words.all_are(5));
    assert!(!words.all_are(4));
    assert!(words.any_contains(5));
    assert!(!words.any_contains(0));
    let mut other = data;
    other[17] = 0;
    let words = Batches::exact(&other);
    assert!(!words.all_are(5));
    assert!(words.any_contains(0));
    assert_eq!(words.get(2), 0x0505_0505_0505_0005);
}

#[test]
fn loads_put_the_first_byte_lowest() {
    assert_eq!(load16(&[0x34, 0x12]), 0x1234);
    assert_eq!(load32(&[0x78, 0x56, 0x34, 0x12]), 0x1234_5678);
    let b = [0xFF, 0x08, 0x07, 0x06, 0x05, 0x04, 0x03, 0x02, 0x01, 0xFF];
    assert_eq!(load(&b, 1), 0x0102_0304_0506_0708);
    assert_eq!(load(&b, 0), 0x0203_0405_0607_08FF);
    assert_eq!(load(&b, 2), 0xFF01_0203_0405_0607);
}

#[test]
fn lane_masks() {
    assert_eq!(LO, u64::MAX / 0xFF);
    assert_eq!(HI, LO << 7);
}

#[test]
fn splat_fills_every_byte() {
    assert_eq!(u8::splat(0xAB), 0xAB);
    assert_eq!(u16::splat(0xAB), 0xABAB);
    assert_eq!(u32::splat(0xAB), 0xABAB_ABAB);
    assert_eq!(u64::splat(0xAB), 0xABAB_ABAB_ABAB_ABAB);
    assert_eq!(u64::splat(0), 0);
    assert_eq!(u64::splat(0xFF), u64::MAX);
    assert_eq!(usize::splat(0xFF), usize::MAX);
    assert_eq!(usize::splat(1), usize::MAX / 0xFF);
    assert_eq!(i16::splat(0xFF), -1);
    assert_eq!(i32::splat(0x80), i32::from_ne_bytes([0x80; 4]));
    assert_eq!(i64::splat(0x7F), 0x7F7F_7F7F_7F7F_7F7F);
    assert_eq!(isize::splat(0xFF), -1);
    assert_eq!(<[u8; 2]>::splat(3), [3, 3]);
    assert_eq!(<[u8; 16]>::splat(9), [9; 16]);
    assert_eq!(<[u8; 128]>::splat(200), [200; 128]);
    assert_eq!(<[u8; 0]>::splat(200), []);
    assert!(<[u8; 64]>::splat(77).is(77));
}

#[test]
fn single_byte() {
    assert!(7u8.is(7));
    assert!(!7u8.is(8));
    assert!(Bytes::contains(&7u8, 7));
    assert!(!Bytes::contains(&7u8, 0));
    assert!(0u8.is_zero());
    assert!(0u8.contains_zero());
    assert!(!1u8.is_zero());
    assert!(!1u8.contains_zero());
}

#[test]
fn zero_lane_detector_on_every_16_bit_word() {
    for w in 0..=u16::MAX {
        let [a, b] = w.to_le_bytes();
        assert_eq!(w.contains_zero(), a == 0 || b == 0, "{w:#06x}");
        assert_eq!(w.is_zero(), w == 0);
        assert_eq!((w as i16).contains_zero(), a == 0 || b == 0);
    }
}

#[test]
fn every_16_bit_word_against_every_byte() {
    for w in (0..=u16::MAX).step_by(7) {
        let [a, b] = w.to_le_bytes();
        for byte in 0..=255u8 {
            assert_eq!(w.contains(byte), a == byte || b == byte);
            assert_eq!(w.is(byte), a == byte && b == byte);
        }
    }
}

#[test]
fn zero_lane_detector_is_not_fooled_by_a_borrow() {
    // a lane of 0x01 above a zero lane turns to zero by the borrow alone
    assert!(0x0100u16.contains_zero());
    assert!(!0x0101u16.contains_zero());
    assert!(!0x0180u16.contains_zero());
    assert!(!0x8001u16.contains_zero());
    assert!(!0x0101_0101u32.contains_zero());
    assert!(!0x8080_8080u32.contains_zero());
    assert!(0x8080_0080u32.contains_zero());
    assert!(!0x0101_0101_0101_0101u64.contains_zero());
    assert!(!0xFFFF_FFFF_FFFF_FFFFu64.contains_zero());
    assert!(!0x8001_8001_8001_8001u64.contains_zero());
    assert!(0x8001_8001_0001_8001u64.contains_zero());
    assert!(0x00FF_FFFF_FFFF_FFFFu64.contains_zero());
    assert!(0xFFFF_FFFF_FFFF_FF00u64.contains_zero());
    assert!(0u64.contains_zero());
}

#[test]
fn words_of_each_width() {
    assert!(0x2A2Au16.is(0x2A));
    assert!(!0x2A2Bu16.is(0x2A));
    assert!(0x2A2Bu16.contains(0x2B));
    assert!(0x2A2A_2A2Au32.is(0x2A));
    assert!(!0x2A2A_002Au32.is(0x2A));
    assert!(0x2A2A_002Au32.contains(0));
    assert!(!0x2A2A_002Au32.contains(0x2B));
    assert!(0x2A2A_2A2A_2A2A_2A2Au64.is(0x2A));
    assert!(!0x2A2A_2A2A_2A2A_2A2Bu64.is(0x2A));
    assert!(0x2A2A_2A2A_2A2A_2A2Bu64.contains(0x2B));
    assert!(!0x2A2A_2A2A_2A2A_2A2Bu64.contains(0x2C));
    assert!((-1i16).is(0xFF));
    assert!((-1i32).is(0xFF));
    assert!((-1i64).is(0xFF));
    assert!((-1isize).is(0xFF));
    assert!((-2i64).contains(0xFE));
    assert!(!(-2i64).contains(0xFD));
    assert!(i32::MIN.contains(0x80));
    assert!(i32::MIN.contains_zero());
    assert!(!(-1i32).contains_zero());
    assert!(usize::MAX.is(0xFF));
    assert!(!usize::MAX.contains_zero());
    assert!((usize::MAX - 0xFF).contains_zero());
    assert!((usize::MAX >> 8).contains_zero());
    assert!(!(usize::MAX >> 8).is(0xFF));
    assert!((usize::MAX / 0xFF * 3).is(3));
    assert!(0usize.is_zero());
    assert!(usize::splat(0x11).contains(0x11));
    assert!(!usize::splat(0x11).contains(0x10));
    assert!((isize::MAX).contains(0x7F));
}

#[test]
fn arrays_of_two_four_and_eight() {
    assert!(small_is(&[3, 3], 3));
    assert!(!small_is(&[3, 4], 3));
    assert!(!small_is(&[4, 3], 3));
    assert!(small_contains(&[3, 4], 4));
    assert!(small_contains(&[4, 3], 4));
    assert!(!small_contains(&[3, 4], 5));
    assert!(small_is_zero(&[0, 0]));
    assert!(!small_is_zero(&[0, 1]));
    assert!(!small_is_zero(&[0x80, 0]));
    assert!(small_is(&[9, 9, 9, 9], 9));
    assert!(!small_is(&[9, 9, 9, 8], 9));
    assert!(small_contains(&[9, 9, 9, 8], 8));
    assert!(small_is_zero(&[0, 0, 0, 0]));
    assert!(!small_is_zero(&[0, 0, 1, 0]));
    assert!(small_is(&[9; 8], 9));
    assert!(!small_is(&[9, 9, 9, 9, 9, 9, 9, 0], 9));
    assert!(small_contains(&[9, 9, 9, 9, 9, 9, 9, 0], 0));
    assert!(!small_contains(&[9; 8], 0));
    assert!(small_is_zero(&[0; 8]));
    assert!(!small_is_zero(&[0, 0, 0, 0, 0, 0, 0, 1]));
    assert!([0u8; 2].is_zero());
    assert!(![0u8, 1].is_zero());
    assert!([0u8; 8].is_zero());
}

#[test]
fn arrays_of_a_few_words() {
    for n in [16usize, 32, 64] {
        let mut data = vec![6u8; n];
        assert!(multi_is(&data, 6));
        assert!(multi_contains(&data, 6));
        assert!(!multi_contains(&data, 7));
        for at in 0..n {
            data[at] = 7;
            assert!(!multi_is(&data, 6), "length {n}, byte {at}");
            assert!(multi_contains(&data, 7));
            assert!(!multi_contains(&data, 8));
            data[at] = 6;
        }
    }
    assert!([1u8; 16].is(1));
    assert!([1u8; 32].is(1));
    assert!([1u8; 64].is(1));
    assert!([0u8; 64].is_zero());
    assert!(![1u8; 64].contains_zero());
}

#[test]
fn block_sizes() {
    for k in 2..=7usize {
        assert_eq!(block_size(k * 64), 64);
        assert_eq!(block_size(k * 256), 256);
        assert_eq!(block_size(k * 1024), 1024);
    }
    for n in [0usize, 1, 2, 8, 16, 64, 65, 127, 129, 8 * 1024, 7 * 1024 + 64, 100_000] {
        assert_eq!(block_size(n), 0, "{n}");
    }
}

#[test]
fn arrays_made_of_blocks() {
    for base in [64usize, 256, 1024] {
        for k in 2..=7usize {
            let n = k * base;
            let mut data = vec![0xEEu8; n];
            assert!(large_is(&data, 0xEE));
            assert!(large_contains(&data, 0xEE));
            assert!(!large_contains(&data, 0));
            for at in [0, 1, base - 1, base, n / 2 + 3, n - 9, n - 8, n - 1] {
                data[at] = 0;
                assert!(!large_is(&data, 0xEE), "length {n}, byte {at}");
                assert!(large_contains(&data, 0), "length {n}, byte {at}");
                assert!(!large_contains(&data, 1));
                data[at] = 0xEE;
            }
        }
    }
    assert!([4u8; 128].is(4));
    assert!([4u8; 448].is(4));
    assert!([4u8; 1024].is(4));
    assert!([4u8; 7168].is(4));
    let mut a = [4u8; 7168];
    a[7000] = 5;
    assert!(!a.is(4));
    assert!(Bytes::contains(&a, 5));
    assert!(!Bytes::contains(&a, 6));
    assert!(!a.is_zero());
    assert!(!a.contains_zero());
}

#[test]
fn arrays_agree_with_their_slices() {
    fn check<const N: usize>(seed: u8) {
        let mut a = [seed; N];
        for round in 0..3 {
            for byte in [seed, seed.wrapping_add(1), 0] {
                assert_eq!(a.is(byte), Bytes::is(&a[..], byte), "length {N}");
                assert_eq!(Bytes::contains(&a, byte), Bytes::contains(&a[..], byte), "length {N}");
                assert_eq!(fixed_is(&a, byte), Bytes::is(&a[..], byte));
                assert_eq!(fixed_contains(&a, byte), Bytes::contains(&a[..], byte));
            }
            assert_eq!(a.is_zero(), a[..].is_zero());
            assert_eq!(fixed_is_zero(&a), a[..].is_zero());
            assert_eq!(a.contains_zero(), a[..].contains_zero());
            if N > 0 {
                a[(N - 1) / (round + 1)] = 0;
            }
        }
    }
    check::<0>(1);
    check::<1>(2);
    check::<2>(3);
    check::<3>(4);
    check::<4>(5);
    check::<7>(6);
    check::<8>(7);
    check::<9>(8);
    check::<16>(9);
    check::<24>(10);
    check::<32>(11);
    check::<64>(12);
    check::<128>(13);
    check::<192>(14);
    check::<256>(15);
    check::<320>(16);
    check::<384>(17);
    check::<448>(18);
    check::<512>(19);
    check::<768>(20);
    check::<1024>(21);
    check::<1280>(22);
    check::<1536>(23);
    check::<1792>(24);
    check::<2048>(25);
    check::<3072>(26);
    check::<4096>(27);
    check::<5120>(28);
    check::<6144>(29);
    check::<7168>(30);
}

#[test]
fn bytes_can_be_used_behind_a_pointer() {
    let word = 0x0505_0505u32;
    let array = [5u8; 16];
    let values: [&dyn Bytes; 4] = [&5u8, &word, &array, &0x0505i16];
    for v in values {
        assert!(v.is(5));
        assert!(v.contains(5));
        assert!(!v.is_zero());
        assert!(!v.contains_zero());
    }
}
