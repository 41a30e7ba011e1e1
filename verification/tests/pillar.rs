use prismqueer::flux::pillar::{Arbitrary, Sample};

#[test]
fn replayed_buffer_draws_its_own_bytes() {
    let mut s = Sample::from_bytes(vec![0, 1, 2]);
    assert!(!s.draw_bool());
    assert!(s.draw_bool());
    assert!(!s.draw_bool());
    assert_eq!(s.depth(), 3);
}

#[test]
fn empty_buffer_extends_with_splitmix_of_zero() {
    // splitmix64(0) = 0xe220a8397b1dcdaf; its low byte 0xaf is odd.
    let mut s = Sample::from_bytes(Vec::new());
    assert!(s.draw_bool());
    assert_eq!(s.depth(), 1);
    let mut t = Sample::from_bytes(Vec::new());
    assert_eq!(u64::arbitrary(&mut t), 0xe220_a839_7b1d_cdaf);
    assert_eq!(t.depth(), 8);
    // The next extension is seeded by the previous value.
    assert_eq!(u64::arbitrary(&mut t), 0xa706_dd2f_4d19_7e6f);
}

#[test]
fn replay_extends_from_the_buffer_digest() {
    let s = Sample::from_bytes(b"abc".to_vec());
    let oid = s.buffer_oid();
    let expected: [u8; 32] = [
        0xba, 0x78, 0x16, 0xbf, 0x8f, 0x01, 0xcf, 0xea, 0x41, 0x41, 0x40, 0xde, 0x5d, 0xae,
        0x22, 0x23, 0xb0, 0x03, 0x61, 0xa3, 0x96, 0x17, 0x7a, 0x9c, 0xb4, 0x10, 0xff, 0x61,
        0xf2, 0x00, 0x15, 0xad,
    ];
    assert_eq!(oid, expected);
    assert_eq!(Sample::seed_from_digest(&oid), 0xeacf_018f_bf16_78ba);
    let mut s = s;
    // Three buffered bytes, then five bytes of splitmix64(seed).
    assert_eq!(u64::arbitrary(&mut s), 0xdf9d_0097_a063_6261);
}

#[test]
fn equal_buffers_draw_equally() {
    let mut a = Sample::from_bytes(vec![9, 8, 7, 6, 5]);
    let mut b = Sample::from_bytes(vec![9, 8, 7, 6, 5]);
    for _ in 0..4 {
        assert_eq!(a.draw_integer(-50, 50), b.draw_integer(-50, 50));
        assert_eq!(a.draw_bool(), b.draw_bool());
    }
    assert_eq!(a.depth(), b.depth());
    assert_eq!(a.buffer_oid(), b.buffer_oid());
}

#[test]
fn draw_integer_reduces_into_the_range() {
    let mut s = Sample::from_bytes(vec![7, 0, 0, 0, 0, 0, 0, 0]);
    assert_eq!(s.draw_integer(10, 20), 17);
    assert_eq!(s.depth(), 8);
    let mut s = Sample::from_bytes(vec![255, 255, 255, 255, 255, 255, 255, 255]);
    let v = s.draw_integer(-3, 3);
    assert!((-3..=3).contains(&v));
    // u64::MAX mod 7 = 1, so -3 + 1.
    assert_eq!(v, -2);
}

#[test]
fn draw_integer_on_reversed_range_returns_min_without_reading() {
    let mut s = Sample::from_bytes(vec![1, 2, 3]);
    assert_eq!(s.draw_integer(9, 2), 9);
    assert_eq!(s.depth(), 0);
}

#[test]
fn draw_integer_on_one_value_range_still_reads_eight_bytes() {
    let mut s = Sample::from_bytes(vec![1, 2, 3, 4, 5, 6, 7, 8]);
    assert_eq!(s.depth(), 0);
    assert_eq!(s.draw_integer(5, 5), 5);
    assert_eq!(s.depth(), 8);
}

#[test]
fn draw_from_picks_by_drawn_index() {
    let mut s = Sample::from_bytes(vec![5, 0, 0, 0, 0, 0, 0, 0]);
    assert_eq!(s.draw_from(&['a', 'b', 'c']), 'c');
    let mut t = Sample::from_bytes(vec![5]);
    assert_eq!(t.draw_from(&[42]), 42);
    assert_eq!(t.depth(), 8);
}

#[test]
fn arbitrary_integers_are_little_endian() {
    let mut s = Sample::from_bytes(vec![1, 2, 3, 4, 0xff, 0xff, 0xff, 0xff]);
    assert_eq!(u32::arbitrary(&mut s), 0x0403_0201);
    assert_eq!(i32::arbitrary(&mut s), -1);
    let mut t = Sample::from_bytes(vec![0xff; 8]);
    assert_eq!(i64::arbitrary(&mut t), -1);
    let mut u = Sample::from_bytes(vec![1, 0, 0, 0, 0, 0, 0, 0x80]);
    assert_eq!(u64::arbitrary(&mut u), 0x8000_0000_0000_0001);
    let mut w = Sample::from_bytes(vec![3]);
    assert!(bool::arbitrary(&mut w));
}

#[test]
fn fresh_samples_follow_their_entropy_seed() {
    // time 0, counter 0: the seed is splitmix64(0), and the first extension
    // is splitmix64 of that seed.
    let mut s = Sample::from_entropy(0, 0);
    assert_eq!(s.depth(), 0);
    assert_eq!(u64::arbitrary(&mut s), 0xa706_dd2f_4d19_7e6f);
    let mut a = Sample::from_entropy(123, 4);
    let mut b = Sample::from_entropy(123, 4);
    assert_eq!(u64::arbitrary(&mut a), u64::arbitrary(&mut b));
}
