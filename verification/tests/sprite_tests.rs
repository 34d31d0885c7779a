use minerdata::color::ColorAttribute;
use minerdata::error::MinerError;
use minerdata::sprite::Sprite;

#[test]
fn decode_succeeds_iff_nine_bytes() {
    // For an 8x8 sprite the record is 1 attribute byte + 8 bitmap bytes.
    for len in 0..=20usize {
        let bytes = vec![0u8; len];
        let r = Sprite::try_from_bytes(8, 8, &bytes);
        if len == 9 {
            assert!(r.is_ok());
        } else {
            assert_eq!(
                r.unwrap_err(),
                MinerError::SizeMismatch { expected: 9, found: len }
            );
        }
    }
}

#[test]
fn decode_stores_attribute_and_bitmap_verbatim() {
    let bytes = [0x42u8, 0x80, 0x01, 0xFF, 0x00, 0xAA, 0x55, 0x0F, 0xF0];
    let s = Sprite::try_from_bytes(8, 8, &bytes).unwrap();
    assert_eq!(s.width, 8);
    assert_eq!(s.height, 8);
    assert_eq!(s.attribute, ColorAttribute::decode(0x42));
    assert_eq!(s.bitmap, vec![0x80, 0x01, 0xFF, 0x00, 0xAA, 0x55, 0x0F, 0xF0]);
}

#[test]
fn expansion_is_msb_first() {
    // Bright red ink on black paper; row 0 = 0x80 lights only the
    // leftmost pixel, row 1 = 0x01 only the rightmost.
    let bytes = [0x42u8, 0x80, 0x01, 0x00, 0x00, 0x00, 0x00, 0x00, 0xFF];
    let s = Sprite::try_from_bytes(8, 8, &bytes).unwrap();
    let rows = s.to_rgba();
    assert_eq!(rows.len(), 8);
    for row in &rows {
        assert_eq!(row.len(), 32);
    }
    let fg = [255u8, 0, 0, 255];
    let bg = [0u8, 0, 0, 255];
    for col in 0..8 {
        let expect0 = if col == 0 { fg } else { bg };
        let expect1 = if col == 7 { fg } else { bg };
        assert_eq!(&rows[0][col * 4..col * 4 + 4], &expect0);
        assert_eq!(&rows[1][col * 4..col * 4 + 4], &expect1);
        assert_eq!(&rows[2][col * 4..col * 4 + 4], &bg);
        assert_eq!(&rows[7][col * 4..col * 4 + 4], &fg);
    }
}

#[test]
fn expansion_is_repeatable() {
    let bytes = [0x17u8, 0x3C, 0x42, 0x81, 0x81, 0x81, 0x81, 0x42, 0x3C];
    let s = Sprite::try_from_bytes(8, 8, &bytes).unwrap();
    assert_eq!(s.to_rgba(), s.to_rgba());
}

#[test]
fn duplicate_is_exact() {
    let bytes = [0x55u8, 1, 2, 3, 4, 5, 6, 7, 8];
    let s = Sprite::try_from_bytes(8, 8, &bytes).unwrap();
    let d = s.duplicate();
    assert_eq!(d.width, s.width);
    assert_eq!(d.height, s.height);
    assert_eq!(d.attribute, s.attribute);
    assert_eq!(d.bitmap, s.bitmap);
}
