//! The caverns region of the game's binary data: 20 consecutive
//! 1024-byte cavern records starting at absolute offset 0xB000, and the
//! atlas raster derived from the tile sprites of every cavern.

use vstd::prelude::*;

use crate::atlas;
use crate::cavern::CAVERN_SIZE_BYTES;
use crate::cavern::Cavern;
use crate::cavern::cavern_decoded;
use crate::error::MinerError;
use crate::sprite::Sprite;
use crate::sprite::SpriteV;

verus! {

/// Absolute byte offset of the caverns region in the source.
pub const CAVERNS_OFFSET_BYTES: usize = 0xB000;

/// Number of cavern records in the region.
pub const CAVERN_COUNT: usize = 20;

/// The 1024-byte region of cavern record `i` within the full source.
pub open spec fn cavern_record_bytes(bytes: Seq<u8>, i: int) -> Seq<u8> {
    bytes.subrange(0xB000 + 1024 * i, 0xB000 + 1024 * (i + 1))
}

/// The ordered collection of every decoded cavern, in file order.
/// Created once by decoding the source in full; never mutated.
#[derive(Debug)]
pub struct GameData {
    pub caverns: Vec<Cavern>,
}

/// The views of all tile sprites of `g`, cavern by cavern and slot by
/// slot: sprite `i` is slot `i % 8` of cavern `i / 8`.
pub open spec fn flat_sprite_views(g: GameData) -> Seq<SpriteV> {
    Seq::new((g.caverns@.len() * 8) as nat, |i: int| g.caverns@[i / 8].tile_sprites@[i % 8]@)
}

impl GameData {
    /// Every cavern is structurally well formed.
    pub open spec fn wf(self) -> bool {
        forall|i: int| 0 <= i < self.caverns@.len() ==> (#[trigger] self.caverns@[i]).wf()
    }

    /// Load the caverns region from the full source bytes: exactly 20
    /// sequential 1024-byte records starting at offset 0xB000, each
    /// decoded in file order.  A source too short to cover the region
    /// is an `IoFailure` before any cavern is produced; the first
    /// record that fails to decode aborts the whole load (fail-fast, no
    /// partial result).  Succeeds if and only if the source covers the
    /// region and every record's name bytes are valid UTF-8.
    pub fn load(bytes: &[u8]) -> (r: Result<GameData, MinerError>)
        ensures
            r is Ok <==> bytes@.len() >= CAVERNS_OFFSET_BYTES + CAVERN_COUNT * CAVERN_SIZE_BYTES
                && (forall|i: int|
                0 <= i < CAVERN_COUNT ==> vstd::utf8::valid_utf8(
                    (#[trigger] cavern_record_bytes(bytes@, i)).subrange(512, 544),
                )),
            r is Ok ==> {
                &&& r->Ok_0.caverns@.len() == CAVERN_COUNT
                &&& r->Ok_0.wf()
                &&& forall|i: int|
                    0 <= i < CAVERN_COUNT ==> cavern_decoded(
                        #[trigger] r->Ok_0.caverns@[i],
                        cavern_record_bytes(bytes@, i),
                    )
            },
            bytes@.len() < CAVERNS_OFFSET_BYTES + CAVERN_COUNT * CAVERN_SIZE_BYTES ==> r
                == Err::<GameData, MinerError>(MinerError::IoFailure),
            r is Err && bytes@.len() >= CAVERNS_OFFSET_BYTES + CAVERN_COUNT * CAVERN_SIZE_BYTES
                ==> r == Err::<GameData, MinerError>(MinerError::InvalidText),
    {
        if bytes.len() < CAVERNS_OFFSET_BYTES + CAVERN_COUNT * CAVERN_SIZE_BYTES {
            return Err(MinerError::IoFailure);
        }
        let mut caverns: Vec<Cavern> = Vec::new();
        let mut i: usize = 0;
        while i < CAVERN_COUNT
            invariant
                bytes@.len() >= CAVERNS_OFFSET_BYTES + CAVERN_COUNT * CAVERN_SIZE_BYTES,
                i <= CAVERN_COUNT,
                caverns@.len() == i,
                forall|j: int|
                    0 <= j < i ==> cavern_decoded(
                        #[trigger] caverns@[j],
                        cavern_record_bytes(bytes@, j),
                    ),
                forall|j: int| 0 <= j < i ==> (#[trigger] caverns@[j]).wf(),
            decreases CAVERN_COUNT - i,
        {
            let start = CAVERNS_OFFSET_BYTES + i * CAVERN_SIZE_BYTES;
            proof {
                assert(bytes@.subrange(start as int, start as int + 1024) == cavern_record_bytes(
                    bytes@,
                    i as int,
                ));
            }
            let cavern = match Cavern::decode(&bytes[start..start + CAVERN_SIZE_BYTES]) {
                Ok(c) => c,
                Err(e) => {
                    return Err(e);
                },
            };
            caverns.push(cavern);
            i += 1;
        }
        proof {
            assert forall|j: int| 0 <= j < CAVERN_COUNT implies vstd::utf8::valid_utf8(
                (#[trigger] cavern_record_bytes(bytes@, j)).subrange(512, 544),
            ) by {
                assert(cavern_decoded(caverns@[j], cavern_record_bytes(bytes@, j)));
            }
        }
        Ok(GameData { caverns })
    }

    /// The atlas raster of every tile sprite of every cavern, in
    /// cavern-then-slot order: 16 sprites per row, 128 pixels wide,
    /// `(n / 16 + 1) * 8` pixels tall, 4 bytes per pixel.  Every byte
    /// of the buffer is pinned down by `is_atlas`; blocks beyond the
    /// last sprite are transparent black.
    pub fn cavern_tiles_rgba(&self) -> (r: Result<Vec<u8>, MinerError>)
        requires
            self.wf(),
            self.caverns@.len() <= 0x2_0000,
        ensures
            r is Ok,
            atlas::is_atlas(flat_sprite_views(*self), r->Ok_0@),
    {
        let mut flat: Vec<Sprite> = Vec::new();
        let mut ci: usize = 0;
        while ci < self.caverns.len()
            invariant
                self.wf(),
                self.caverns@.len() <= 0x2_0000,
                ci <= self.caverns@.len(),
                flat@.len() == ci * 8,
                forall|t: int|
                    0 <= t < flat@.len() ==> (#[trigger] flat@[t])@ == self.caverns@[t
                        / 8].tile_sprites@[t % 8]@,
                forall|t: int| 0 <= t < flat@.len() ==> (#[trigger] flat@[t])@.wf8(),
            decreases self.caverns@.len() - ci,
        {
            let cavern = &self.caverns[ci];
            let mut k: usize = 0;
            while k < cavern.tile_sprites.len()
                invariant
                    self.wf(),
                    self.caverns@.len() <= 0x2_0000,
                    ci < self.caverns@.len(),
                    cavern == self.caverns@[ci as int],
                    cavern.tile_sprites@.len() == 8,
                    k <= 8,
                    flat@.len() == ci * 8 + k,
                    forall|t: int|
                        0 <= t < flat@.len() ==> (#[trigger] flat@[t])@ == self.caverns@[t
                            / 8].tile_sprites@[t % 8]@,
                    forall|t: int| 0 <= t < flat@.len() ==> (#[trigger] flat@[t])@.wf8(),
                decreases 8 - k,
            {
                let sprite = cavern.tile_sprites[k].duplicate();
                proof {
                    assert((ci * 8 + k) as int / 8 == ci as int && (ci * 8 + k) as int % 8
                        == k as int) by (nonlinear_arith)
                        requires
                            0 <= k < 8,
                            0 <= ci,
                    ;
                }
                flat.push(sprite);
                k += 1;
            }
            ci += 1;
        }
        let (buffer, _width, _height) = atlas::compose(&flat);
        proof {
            assert(atlas::sprite_views(flat@) =~= flat_sprite_views(*self));
        }
        Ok(buffer)
    }
}

} // verus!
