//! The sprite-atlas compositor: lays an ordered sequence of 8x8 sprites
//! out into one contiguous RGBA raster, 16 sprites per row, row major.
//!
//! The raster is always one sprite row taller than strictly needed:
//! with `n` sprites it has `n / 16 + 1` sprite rows.  This
//! over-allocation is intentional and frozen (it guarantees the raster
//! is never too small, even on exact multiples of 16); every pixel of a
//! block whose sprite index is `n` or beyond is transparent black
//! (0, 0, 0, 0).

use vstd::prelude::*;

use crate::sprite::Sprite;
use crate::sprite::SpriteV;

verus! {

/// Sprites per raster row.
pub const ATLAS_COLUMNS: usize = 16;

/// Pixel width of the raster: 16 sprites of 8 pixels each.
pub const ATLAS_WIDTH_PIXELS: usize = 128;

/// Bytes per RGBA pixel.
pub const RGBA_BYTES_PER_PIXEL: usize = 4;

/// The views of a vector of sprites, in order.
pub open spec fn sprite_views(sprites: Seq<Sprite>) -> Seq<SpriteV> {
    sprites.map_values(|s: Sprite| s@)
}

/// Pixel height of the atlas for `n` sprites: `n / 16 + 1` sprite rows
/// of 8 pixels (always one full row of slack).
pub open spec fn atlas_height_pixels(n: int) -> int {
    8 * (n / 16 + 1)
}

/// The byte the atlas holds for channel `k` of the pixel at
/// (`pr`, `pc`): the matching sprite's pixel where the block's sprite
/// index is in range, zero otherwise.
pub open spec fn atlas_byte(sprites: Seq<SpriteV>, pr: int, pc: int, k: int) -> u8
    recommends
        0 <= pr,
        0 <= pc < 128,
        0 <= k < 4,
{
    let idx = (pr / 8) * 16 + pc / 8;
    if idx < sprites.len() {
        sprites[idx].pixel_rgba(pr % 8, pc % 8)[k]
    } else {
        0
    }
}

/// `buf` is the composed raster for `sprites`: exactly
/// `128 * height * 4` bytes, row major, every byte as `atlas_byte`
/// says — in particular, every pixel of every block at or beyond the
/// sprite count is (0, 0, 0, 0).
pub open spec fn is_atlas(sprites: Seq<SpriteV>, buf: Seq<u8>) -> bool {
    &&& buf.len() == 128 * atlas_height_pixels(sprites.len() as int) * 4
    &&& forall|pr: int, pc: int, k: int|
        0 <= pr < atlas_height_pixels(sprites.len() as int) && 0 <= pc < 128 && 0 <= k < 4
            ==> buf[(pr * 128 + pc) * 4 + k] == #[trigger] atlas_byte(sprites, pr, pc, k)
}

/// Every pixel of a block whose sprite index is at or beyond the
/// sprite count is transparent black in the composed raster: all four
/// of its channel bytes are zero.
pub proof fn lemma_atlas_padding(sprites: Seq<SpriteV>, buf: Seq<u8>, pr: int, pc: int, k: int)
    requires
        is_atlas(sprites, buf),
        0 <= pr < atlas_height_pixels(sprites.len() as int),
        0 <= pc < 128,
        0 <= k < 4,
        (pr / 8) * 16 + pc / 8 >= sprites.len(),
    ensures
        buf[(pr * 128 + pc) * 4 + k] == 0,
{
    assert(atlas_byte(sprites, pr, pc, k) == 0);
}

/// Compose the atlas raster for an ordered sequence of 8x8 sprites.
/// Returns the RGBA buffer, its pixel width (always 128) and its pixel
/// height (`(n / 16 + 1) * 8`).  Every byte of the buffer is pinned
/// down: sprite pixels inside blocks with index below `n`, zero bytes
/// everywhere else.
pub fn compose(sprites: &Vec<Sprite>) -> (r: (Vec<u8>, usize, usize))
    requires
        forall|i: int| 0 <= i < sprites@.len() ==> (#[trigger] sprites@[i])@.wf8(),
        sprites@.len() <= 0x10_0000,
    ensures
        r.1 == ATLAS_WIDTH_PIXELS,
        r.2 == atlas_height_pixels(sprites@.len() as int),
        is_atlas(sprite_views(sprites@), r.0@),
{
    let ghost sv = sprite_views(sprites@);
    let n = sprites.len();
    let rows_of_sprites = n / ATLAS_COLUMNS + 1;
    let height = 8 * rows_of_sprites;
    let mut merged: Vec<u8> = Vec::new();
    let mut pr: usize = 0;
    while pr < height
        invariant
            forall|i: int| 0 <= i < sprites@.len() ==> (#[trigger] sprites@[i])@.wf8(),
            sv == sprite_views(sprites@),
            n == sprites@.len(),
            n <= 0x10_0000,
            height == atlas_height_pixels(n as int),
            pr <= height,
            merged@.len() == pr * 512,
            forall|r2: int, c2: int, k2: int|
                0 <= r2 < pr && 0 <= c2 < 128 && 0 <= k2 < 4 ==> merged@[(r2 * 128 + c2) * 4
                    + k2] == #[trigger] atlas_byte(sv, r2, c2, k2),
        decreases height - pr,
    {
        let mut pc: usize = 0;
        while pc < 128
            invariant
                forall|i: int| 0 <= i < sprites@.len() ==> (#[trigger] sprites@[i])@.wf8(),
                sv == sprite_views(sprites@),
                n == sprites@.len(),
                n <= 0x10_0000,
                height == atlas_height_pixels(n as int),
                pr < height,
                pc <= 128,
                merged@.len() == pr * 512 + pc * 4,
                forall|r2: int, c2: int, k2: int|
                    0 <= r2 < pr && 0 <= c2 < 128 && 0 <= k2 < 4 ==> merged@[(r2 * 128 + c2) * 4
                        + k2] == #[trigger] atlas_byte(sv, r2, c2, k2),
                forall|c2: int, k2: int|
                    0 <= c2 < pc && 0 <= k2 < 4 ==> merged@[(pr as int * 128 + c2) * 4 + k2]
                        == #[trigger] atlas_byte(sv, pr as int, c2, k2),
            decreases 128 - pc,
        {
            let block_col = pc / 8;
            let block_row = pr / 8;
            let sprite_num = block_row * ATLAS_COLUMNS + block_col;
            let ghost before = merged@;
            let ghost quad = seq![
                atlas_byte(sv, pr as int, pc as int, 0),
                atlas_byte(sv, pr as int, pc as int, 1),
                atlas_byte(sv, pr as int, pc as int, 2),
                atlas_byte(sv, pr as int, pc as int, 3),
            ];
            if sprite_num < n {
                let q = sprites[sprite_num].pixel_rgba_at(pr % 8, pc % 8);
                merged.push(q[0]);
                merged.push(q[1]);
                merged.push(q[2]);
                merged.push(q[3]);
                proof {
                    assert(sv[sprite_num as int] == sprites@[sprite_num as int]@);
                    assert(merged@ =~= before + quad);
                }
            } else {
                merged.push(0);
                merged.push(0);
                merged.push(0);
                merged.push(0);
                proof {
                    assert(merged@ =~= before + quad);
                }
            }
            proof {
                assert forall|c2: int, k2: int|
                    0 <= c2 < pc + 1 && 0 <= k2 < 4 implies merged@[(pr as int * 128 + c2) * 4
                    + k2] == #[trigger] atlas_byte(sv, pr as int, c2, k2) by {
                    if c2 < pc {
                        assert((pr as int * 128 + c2) * 4 + k2 < before.len());
                    } else {
                        assert((pr as int * 128 + c2) * 4 + k2 == before.len() + k2);
                    }
                }
                assert forall|r2: int, c2: int, k2: int|
                    0 <= r2 < pr && 0 <= c2 < 128 && 0 <= k2 < 4 implies merged@[(r2 * 128 + c2)
                    * 4 + k2] == #[trigger] atlas_byte(sv, r2, c2, k2) by {
                    assert((r2 * 128 + c2) * 4 + k2 < before.len());
                }
            }
            pc += 1;
        }
        pr += 1;
    }
    proof {
        assert(merged@.len() == 128 * atlas_height_pixels(sv.len() as int) * 4);
    }
    (merged, ATLAS_WIDTH_PIXELS, height)
}

} // verus!
