use table16::spread::{
    compress_even_bits, compress_odd_bits, get_tag, interleave_u16_with_zeros, spread_word,
};

#[test]
fn interleave_known_values() {
    assert_eq!(interleave_u16_with_zeros(0), 0);
    assert_eq!(interleave_u16_with_zeros(1), 1);
    assert_eq!(interleave_u16_with_zeros(2), 4);
    assert_eq!(interleave_u16_with_zeros(3), 5);
    assert_eq!(interleave_u16_with_zeros(0x8000), 0x4000_0000);
    assert_eq!(interleave_u16_with_zeros(0xFFFF), 0x5555_5555);
    assert_eq!(interleave_u16_with_zeros(0b1010_1010), 0b0100_0100_0100_0100);
}

#[test]
fn tag_buckets_follow_the_chunk_widths() {
    assert_eq!(get_tag(0), 0);
    assert_eq!(get_tag(0x7F), 0);
    assert_eq!(get_tag(0x80), 1);
    assert_eq!(get_tag(0x3FF), 1);
    assert_eq!(get_tag(0x400), 2);
    assert_eq!(get_tag(0x7FF), 2);
    assert_eq!(get_tag(0x800), 3);
    assert_eq!(get_tag(0x1FFF), 3);
    assert_eq!(get_tag(0x2000), 4);
    assert_eq!(get_tag(0x3FFF), 4);
    assert_eq!(get_tag(0x4000), 5);
    assert_eq!(get_tag(0xFFFF), 5);
}

#[test]
fn even_bits_invert_the_interleaving() {
    for d in [0u16, 1, 2, 3, 0x7F, 0x80, 0x1234, 0x8000, 0xABCD, 0xFFFF] {
        let spread = interleave_u16_with_zeros(d) as u64;
        assert_eq!(compress_even_bits(spread, 16), d as u64);
        assert_eq!(compress_odd_bits(spread, 16), 0);
    }
}

#[test]
fn tag_is_path_independent() {
    // The tag derived by going through the spread encoding and back
    // equals the tag of the dense value itself.
    for d in [0u16, 1, 0x7F, 0x80, 0x3FF, 0x400, 0x1234, 0x2000, 0x4000, 0xFFFF] {
        let spread = interleave_u16_with_zeros(d) as u64;
        let recovered = compress_even_bits(spread, 16) as u16;
        assert_eq!(get_tag(recovered), get_tag(d));
    }
}

#[test]
fn spread_word_carries_tag_dense_and_spread() {
    let sw = spread_word(0x1234);
    assert_eq!(sw.dense, 0x1234);
    assert_eq!(sw.tag, get_tag(0x1234));
    assert_eq!(sw.spread, interleave_u16_with_zeros(0x1234));
}

#[test]
fn odd_bits_pick_up_spread_sum_carries() {
    // Adding two identical spread values sets exactly the odd bits.
    let s = interleave_u16_with_zeros(0x000F) as u64;
    let doubled = s + s;
    assert_eq!(compress_even_bits(doubled, 16), 0);
    assert_eq!(compress_odd_bits(doubled, 16), 0x000F);
}
