use minerdata::color::ColorAttribute;

#[test]
fn decode_is_total_and_opaque() {
    // Every byte value decodes; both quads are fully opaque, and they
    // differ whenever the ink and paper indices differ.
    for byte in 0..=255u8 {
        let c = ColorAttribute::decode(byte);
        assert!(c.ink < 8);
        assert!(c.paper < 8);
        let fg = c.foreground_rgba();
        let bg = c.background_rgba();
        assert_eq!(fg[3], 255);
        assert_eq!(bg[3], 255);
        if c.ink != c.paper {
            assert_ne!(fg, bg);
        } else {
            assert_eq!(fg, bg);
        }
    }
}

#[test]
fn decode_is_deterministic() {
    for byte in 0..=255u8 {
        let a = ColorAttribute::decode(byte);
        let b = ColorAttribute::decode(byte);
        assert_eq!(a, b);
        assert_eq!(a.foreground_rgba(), b.foreground_rgba());
        assert_eq!(a.background_rgba(), b.background_rgba());
    }
}

#[test]
fn frozen_bit_layout() {
    // bits 0..=2 ink, bits 3..=5 paper, bit 6 brightness, bit 7 ignored.
    let c = ColorAttribute::decode(0b0101_1010);
    assert_eq!(c.ink, 2);
    assert_eq!(c.paper, 3);
    assert!(c.bright);
    let d = ColorAttribute::decode(0b1001_1010);
    assert_eq!(d.ink, 2);
    assert_eq!(d.paper, 3);
    assert!(!d.bright);
}

#[test]
fn bright_red_ink_on_black_paper() {
    // ink = red (index 2), paper = black (index 0), brightness set.
    let c = ColorAttribute::decode(0b0100_0010);
    assert_eq!(c.foreground_rgba(), [255, 0, 0, 255]);
    assert_eq!(c.background_rgba(), [0, 0, 0, 255]);
}

#[test]
fn frozen_palette_normal_and_bright() {
    // index: 0 black, 1 blue, 2 red, 3 magenta, 4 green, 5 cyan,
    // 6 yellow, 7 white; normal channel 205, bright channel 255.
    let normal: [[u8; 4]; 8] = [
        [0, 0, 0, 255],
        [0, 0, 205, 255],
        [205, 0, 0, 255],
        [205, 0, 205, 255],
        [0, 205, 0, 255],
        [0, 205, 205, 255],
        [205, 205, 0, 255],
        [205, 205, 205, 255],
    ];
    for ink in 0..8u8 {
        let c = ColorAttribute::decode(ink);
        assert_eq!(c.foreground_rgba(), normal[ink as usize]);
        let b = ColorAttribute::decode(ink | 0x40);
        let mut bright = normal[ink as usize];
        for ch in bright.iter_mut().take(3) {
            if *ch == 205 {
                *ch = 255;
            }
        }
        assert_eq!(b.foreground_rgba(), bright);
    }
}
