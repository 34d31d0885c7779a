use minerdata::atlas::compose;
use minerdata::sprite::Sprite;

/// An 8x8 sprite whose every pixel is the foreground color of the given
/// attribute byte.
fn solid_sprite(attribute: u8) -> Sprite {
    let bytes = [
        attribute, 0xFF, 0xFF, 0xFF, 0xFF, 0xFF, 0xFF, 0xFF, 0xFF,
    ];
    Sprite::try_from_bytes(8, 8, &bytes).unwrap()
}

fn pixel(buffer: &[u8], width: usize, row: usize, col: usize) -> [u8; 4] {
    let at = (row * width + col) * 4;
    [buffer[at], buffer[at + 1], buffer[at + 2], buffer[at + 3]]
}

#[test]
fn zero_sprites_give_one_zero_row() {
    let (buffer, width, height) = compose(&Vec::new());
    assert_eq!(width, 128);
    assert_eq!(height, 8);
    assert_eq!(buffer.len(), 128 * 8 * 4);
    assert!(buffer.iter().all(|&b| b == 0));
}

#[test]
fn sixteen_sprites_still_get_a_padding_row() {
    // An exact multiple of 16 keeps the extra row: one row of sprites,
    // one row of zeros.
    let sprites: Vec<Sprite> = (0..16).map(|_| solid_sprite(0x42)).collect();
    let (buffer, width, height) = compose(&sprites);
    assert_eq!(width, 128);
    assert_eq!(height, 16);
    assert_eq!(buffer.len(), 128 * 16 * 4);
    let fg = [255u8, 0, 0, 255]; // bright red ink
    for row in 0..8 {
        for col in 0..128 {
            assert_eq!(pixel(&buffer, width, row, col), fg);
        }
    }
    for row in 8..16 {
        for col in 0..128 {
            assert_eq!(pixel(&buffer, width, row, col), [0, 0, 0, 0]);
        }
    }
}

#[test]
fn seventeen_sprites_fill_one_cell_of_the_second_row() {
    let sprites: Vec<Sprite> = (0..17).map(|_| solid_sprite(0x42)).collect();
    let (buffer, width, height) = compose(&sprites);
    assert_eq!(width, 128);
    assert_eq!(height, 16); // 17 / 16 + 1 = 2 sprite rows
    let fg = [255u8, 0, 0, 255];
    // First sprite row: all 16 blocks real.
    for row in 0..8 {
        for col in 0..128 {
            assert_eq!(pixel(&buffer, width, row, col), fg);
        }
    }
    // Second sprite row: only the first block (sprite 16) is real.
    for row in 8..16 {
        for col in 0..128 {
            let expect = if col < 8 { fg } else { [0, 0, 0, 0] };
            assert_eq!(pixel(&buffer, width, row, col), expect);
        }
    }
}

#[test]
fn thirty_three_sprites_span_three_rows() {
    let sprites: Vec<Sprite> = (0..33).map(|_| solid_sprite(0x42)).collect();
    let (buffer, width, height) = compose(&sprites);
    assert_eq!(width, 128);
    assert_eq!(height, 24); // 33 / 16 + 1 = 3 sprite rows
    let fg = [255u8, 0, 0, 255];
    for row in 0..16 {
        for col in 0..128 {
            assert_eq!(pixel(&buffer, width, row, col), fg);
        }
    }
    // Third sprite row: one real cell, fifteen zero-padded cells.
    for row in 16..24 {
        for col in 0..128 {
            let expect = if col < 8 { fg } else { [0, 0, 0, 0] };
            assert_eq!(pixel(&buffer, width, row, col), expect);
        }
    }
}

#[test]
fn sprites_keep_their_order_and_position() {
    // Sprite k is solid with ink index k % 8, normal brightness; check
    // each block shows its own sprite's color.
    let sprites: Vec<Sprite> = (0..20u8).map(|k| solid_sprite(k % 8)).collect();
    let (buffer, width, height) = compose(&sprites);
    assert_eq!(height, 16);
    for (k, sprite) in sprites.iter().enumerate() {
        let block_row = k / 16;
        let block_col = k % 16;
        let expect = sprite.attribute.foreground_rgba();
        for r in 0..8 {
            for c in 0..8 {
                assert_eq!(
                    pixel(&buffer, width, block_row * 8 + r, block_col * 8 + c),
                    expect
                );
            }
        }
    }
}

#[test]
fn mixed_bitmap_lands_pixel_exact() {
    // One sprite with a single lit pixel at row 3, column 5, placed as
    // sprite 2: the lit pixel must land at (3, 2 * 8 + 5).
    let mut bytes = [0u8; 9];
    bytes[0] = 0x41; // bright blue ink on black paper
    bytes[1 + 3] = 0x80u8 >> 5;
    let sprites = vec![solid_sprite(0), solid_sprite(0), Sprite::try_from_bytes(8, 8, &bytes).unwrap()];
    let (buffer, width, _height) = compose(&sprites);
    for r in 0..8 {
        for c in 16..24 {
            let expect = if r == 3 && c == 21 {
                [0u8, 0, 255, 255]
            } else {
                [0u8, 0, 0, 255]
            };
            assert_eq!(pixel(&buffer, width, r, c), expect);
        }
    }
}
