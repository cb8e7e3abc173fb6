use ili9486::color::{
    encode_rgb565_16bit, encode_rgb565_8bit, encode_rgb666_16bit, encode_rgb666_18bit,
    encode_rgb666_8bit,
};

#[test]
fn rgb565_8bit_exact_bytes() {
    assert_eq!(encode_rgb565_8bit(&(0xff, 0xff, 0xff)), (0xff, 0xff));
    assert_eq!(encode_rgb565_8bit(&(0x00, 0x00, 0x00)), (0x00, 0x00));
    assert_eq!(encode_rgb565_8bit(&(0x12, 0x34, 0x56)), (0x95, 0x96));
    assert_eq!(encode_rgb565_8bit(&(0x1f, 0, 0x1f)), (0xf8, 0x1f));
}

#[test]
fn rgb565_8bit_follows_the_packing_rule_for_every_pixel() {
    for r in 0..=255u8 {
        for g in 0..=255u8 {
            for b in [0u8, 1, 0x10, 0x1f, 0x20, 0x55, 0xaa, 0xff] {
                let (hi, lo) = encode_rgb565_8bit(&(r, g, b));
                assert_eq!(hi, ((r & 0x1f) << 3) | ((g >> 2) & 0x07));
                assert_eq!(lo, ((g << 5) & 0xe0) | (b & 0x1f));
            }
        }
    }
}

#[test]
fn rgb565_8bit_red_and_blue_come_back_for_every_pixel() {
    for r in 0..=255u8 {
        for b in 0..=255u8 {
            for g in [0u8, 0x20, 0x3c, 0x7f, 0xff] {
                let (hi, lo) = encode_rgb565_8bit(&(r, g, b));
                assert_eq!(hi >> 3, r & 0x1f);
                assert_eq!(lo & 0x1f, b & 0x1f);
            }
        }
    }
}

#[test]
fn rgb565_8bit_green_comes_back_exactly_when_its_bits_2_to_5_agree() {
    for g in 0..=255u8 {
        let (hi, lo) = encode_rgb565_8bit(&(0xa5, g, 0x5a));
        let green = ((hi & 0x07) << 3) | (lo >> 5);
        let survives = g & 0x3c == 0 || g & 0x3c == 0x3c;
        assert_eq!(green == g & 0x3f, survives, "green channel {:#04x}", g);
        assert_eq!(green, (((g >> 2) & 0x07) << 3) | (g & 0x07));
    }
}

#[test]
fn rgb565_8bit_green_0x20_does_not_come_back() {
    let (hi, lo) = encode_rgb565_8bit(&(0, 0x20, 0));
    assert_eq!((hi, lo), (0x00, 0x00));
    assert_ne!(((hi & 0x07) << 3) | (lo >> 5), 0x20);
}

#[test]
fn rgb565_16bit_exact_words() {
    assert_eq!(encode_rgb565_16bit(&(0x12, 0x34, 0x56)), 0x4b56);
    assert_eq!(encode_rgb565_16bit(&(0xff, 0x00, 0x00)), 0x7c00);
    assert_eq!(encode_rgb565_16bit(&(0x00, 0xff, 0x00)), 0x03f0);
    assert_eq!(encode_rgb565_16bit(&(0x00, 0x00, 0xff)), 0x001f);
    assert_eq!(encode_rgb565_16bit(&(0x1f, 0x3f, 0x1f)), 0x7c00 | 0x03f0 | 0x001f);
}

#[test]
fn rgb565_16bit_red_comes_back_for_every_pixel() {
    for r in 0..=255u8 {
        for g in [0u8, 1, 0x3f, 0xff] {
            for b in [0u8, 0x10, 0x1f, 0xff] {
                let word = encode_rgb565_16bit(&(r, g, b));
                assert_eq!((word >> 10) & 0x1f, (r & 0x1f) as u16);
                assert_eq!(word >> 15, 0);
            }
        }
    }
}

#[test]
fn rgb565_16bit_green_and_blue_come_back_exactly_when_they_keep_apart() {
    for g in 0..=255u8 {
        for b in 0..=255u8 {
            let word = encode_rgb565_16bit(&(0x15, g, b));
            let green = (word >> 4) & 0x3f;
            let blue = word & 0x1f;
            let apart = (g & 0x01 == 0x01) == (b & 0x10 == 0x10);
            assert_eq!(
                green == (g & 0x3f) as u16 && blue == (b & 0x1f) as u16,
                apart,
                "green {:#04x} blue {:#04x}",
                g,
                b
            );
        }
    }
}

#[test]
fn rgb565_16bit_lowest_green_bit_lands_in_the_blue_field() {
    let word = encode_rgb565_16bit(&(0, 1, 0));
    assert_eq!(word, 0x0010);
    assert_ne!(word & 0x1f, 0);
}

#[test]
fn rgb666_8bit_exact_bytes() {
    assert_eq!(encode_rgb666_8bit(&(0xff, 0x01, 0x40)), (0xfc, 0x04, 0x00));
    assert_eq!(encode_rgb666_8bit(&(0x3f, 0x20, 0x15)), (0xfc, 0x80, 0x54));
}

#[test]
fn rgb666_8bit_is_the_channel_shifted_by_two_for_every_channel() {
    for c in 0..=255u8 {
        let (r, g, b) = encode_rgb666_8bit(&(c, c.wrapping_add(1), c.wrapping_mul(3)));
        assert_eq!(r as u32, (c as u32 * 4) % 256);
        assert_eq!(g as u32, (c.wrapping_add(1) as u32 * 4) % 256);
        assert_eq!(b as u32, (c.wrapping_mul(3) as u32 * 4) % 256);
        assert_eq!(r >> 2, c & 0x3f);
        assert_eq!(r & 0x03, 0);
    }
}

#[test]
fn rgb666_16bit_exact_words() {
    assert_eq!(
        encode_rgb666_16bit(&(0x3f, 0x01, 0x20), &(0x15, 0x2a, 0x00)),
        (0xfc04, 0x8054, 0xa800)
    );
    assert_eq!(encode_rgb666_16bit(&(0xff, 0xff, 0xff), &(0, 0, 0)), (0xfcfc, 0xfc00, 0x0000));
}

#[test]
fn rgb666_18bit_exact_words() {
    assert_eq!(encode_rgb666_18bit(&(0x3f, 0x00, 0x3f)), 0x3f03f);
    assert_eq!(encode_rgb666_18bit(&(0xff, 0x40, 0x81)), 0x3f001);
    assert_eq!(encode_rgb666_18bit(&(0x01, 0x02, 0x03)), 0x01083);
}

#[test]
fn rgb666_18bit_fits_eighteen_bits() {
    for c in 0..=255u8 {
        assert!(encode_rgb666_18bit(&(c, c, c)) < 0x4_0000);
    }
}
