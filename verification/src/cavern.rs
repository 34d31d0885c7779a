//! One cavern record: the background layout, the cavern's name and its
//! eight background tile sprites.
//!
//! A record is exactly 1024 bytes, covered without gap or overlap:
//! bytes `[0, 512)` are the layout (one attribute byte per cell, row
//! major, 32 columns by 16 rows), bytes `[512, 544)` are the name (32
//! bytes of UTF-8 text, preserved untrimmed), and bytes `[544, 616)`
//! are eight consecutive 9-byte tile sprite records.  The remainder of
//! the record holds data this decoder does not read.

use vstd::prelude::*;

use crate::color::ColorAttribute;
use crate::color::spec_decode_attribute;
use crate::error::MinerError;
use crate::sprite::Sprite;
use crate::sprite::sprite_decoded;

verus! {

/// Bytes of one cavern record, per the fixed binary layout.
pub const CAVERN_SIZE_BYTES: usize = 1024;

/// Bytes of the layout region at the head of a cavern record.
pub const LAYOUT_SIZE_BYTES: usize = 512;

/// Bytes of the name region of a cavern record.
pub const NAME_SIZE_BYTES: usize = 32;

/// Tile sprites per cavern record.
pub const TILE_SPRITE_COUNT: usize = 8;

/// Bytes of one tile sprite record: one attribute byte plus eight
/// bitmap bytes.
pub const TILE_SPRITE_SIZE_BYTES: usize = 9;

/// The background layout of a cavern: exactly 512 attribute cells in a
/// 32-column by 16-row grid, row major (index = row * 32 + col).
#[derive(Debug)]
pub struct Layout {
    pub cells: Vec<ColorAttribute>,
}

/// `cells` is the cell-wise decode of `bytes`, in record order.
pub open spec fn layout_decoded(cells: Seq<ColorAttribute>, bytes: Seq<u8>) -> bool {
    &&& cells.len() == bytes.len()
    &&& forall|i: int| 0 <= i < bytes.len() ==> cells[i] == spec_decode_attribute(#[trigger] bytes[i])
}

impl Layout {
    /// Exactly 512 cells, each with in-range color indices.
    pub open spec fn wf(self) -> bool {
        &&& self.cells@.len() == 512
        &&& forall|i: int| 0 <= i < 512 ==> (#[trigger] self.cells@[i]).wf()
    }

    /// Decode a 512-byte layout region.  Succeeds if and only if
    /// `bytes` is exactly 512 bytes; each byte decodes independently,
    /// in row-major record order.
    pub fn decode(bytes: &[u8]) -> (r: Result<Layout, MinerError>)
        ensures
            r is Ok <==> bytes@.len() == LAYOUT_SIZE_BYTES,
            r is Ok ==> layout_decoded(r->Ok_0.cells@, bytes@) && r->Ok_0.wf(),
            r is Err ==> r == Err::<Layout, MinerError>(
                MinerError::SizeMismatch {
                    expected: LAYOUT_SIZE_BYTES,
                    found: bytes@.len() as usize,
                },
            ),
    {
        if bytes.len() != LAYOUT_SIZE_BYTES {
            return Err(MinerError::SizeMismatch { expected: LAYOUT_SIZE_BYTES, found: bytes.len() });
        }
        let mut cells: Vec<ColorAttribute> = Vec::new();
        let mut i: usize = 0;
        while i < LAYOUT_SIZE_BYTES
            invariant
                bytes@.len() == LAYOUT_SIZE_BYTES,
                i <= LAYOUT_SIZE_BYTES,
                cells@.len() == i,
                forall|j: int|
                    0 <= j < i ==> cells@[j] == spec_decode_attribute(#[trigger] bytes@[j]),
                forall|j: int| 0 <= j < i ==> (#[trigger] cells@[j]).wf(),
            decreases LAYOUT_SIZE_BYTES - i,
        {
            cells.push(ColorAttribute::decode(bytes[i]));
            i += 1;
        }
        Ok(Layout { cells })
    }
}

/// One decoded cavern: its layout, its 32-byte name (decoded as UTF-8
/// text, trailing padding preserved) and its eight tile sprites.
#[derive(Debug)]
pub struct Cavern {
    pub layout: Layout,
    pub name: String,
    pub tile_sprites: Vec<Sprite>,
}

/// The 9-byte region of tile sprite `k` within a cavern record.
pub open spec fn tile_sprite_bytes(bytes: Seq<u8>, k: int) -> Seq<u8> {
    bytes.subrange(544 + 9 * k, 553 + 9 * k)
}

/// `c` is the decode of the 1024-byte record `bytes`: the layout from
/// `[0, 512)`, the name text from `[512, 544)` and the eight tile
/// sprites from `[544, 616)`, each slot decoded at width 8, height 8.
pub open spec fn cavern_decoded(c: Cavern, bytes: Seq<u8>) -> bool
    recommends
        bytes.len() == 1024,
{
    &&& layout_decoded(c.layout.cells@, bytes.subrange(0, 512))
    &&& vstd::utf8::valid_utf8(bytes.subrange(512, 544))
    &&& c.name@ == vstd::utf8::decode_utf8(bytes.subrange(512, 544))
    &&& c.tile_sprites@.len() == 8
    &&& forall|k: int|
        0 <= k < 8 ==> sprite_decoded(
            (#[trigger] c.tile_sprites@[k])@,
            8,
            8,
            tile_sprite_bytes(bytes, k),
        )
}

/// Relies on core::str::from_utf8: it returns `Ok` exactly when the
/// bytes are valid UTF-8, and the resulting string reads those bytes as
/// text (vstd's `decode_utf8` is the same decoding, stated over the
/// byte sequence).
#[verifier::external_body]
fn utf8_to_string(bytes: &[u8]) -> (r: Option<String>)
    ensures
        r is Some <==> vstd::utf8::valid_utf8(bytes@),
        r is Some ==> r->0@ == vstd::utf8::decode_utf8(bytes@),
{
    match core::str::from_utf8(bytes) {
        Ok(s) => Some(s.to_owned()),
        Err(_) => None,
    }
}

impl Cavern {
    /// The record's structural invariant: a well-formed layout and
    /// exactly eight well-formed 8x8 tile sprites.
    pub open spec fn wf(self) -> bool {
        &&& self.layout.wf()
        &&& self.tile_sprites@.len() == 8
        &&& forall|k: int| 0 <= k < 8 ==> (#[trigger] self.tile_sprites@[k])@.wf8()
    }

    /// Decode one 1024-byte cavern record.  Succeeds if and only if the
    /// record is exactly 1024 bytes and its name region is valid UTF-8;
    /// a wrong length is a `SizeMismatch` naming both sizes, a bad name
    /// is `InvalidText`.  Fail-fast: no partial cavern is returned.
    pub fn decode(bytes: &[u8]) -> (r: Result<Cavern, MinerError>)
        ensures
            r is Ok <==> bytes@.len() == CAVERN_SIZE_BYTES && vstd::utf8::valid_utf8(
                bytes@.subrange(512, 544),
            ),
            r is Ok ==> cavern_decoded(r->Ok_0, bytes@) && r->Ok_0.wf(),
            bytes@.len() != CAVERN_SIZE_BYTES ==> r == Err::<Cavern, MinerError>(
                MinerError::SizeMismatch {
                    expected: CAVERN_SIZE_BYTES,
                    found: bytes@.len() as usize,
                },
            ),
            bytes@.len() == CAVERN_SIZE_BYTES && !vstd::utf8::valid_utf8(
                bytes@.subrange(512, 544),
            ) ==> r == Err::<Cavern, MinerError>(MinerError::InvalidText),
    {
        if bytes.len() != CAVERN_SIZE_BYTES {
            return Err(MinerError::SizeMismatch { expected: CAVERN_SIZE_BYTES, found: bytes.len() });
        }
        let layout = match Layout::decode(&bytes[0..LAYOUT_SIZE_BYTES]) {
            Ok(l) => l,
            Err(e) => {
                return Err(e);
            },
        };
        let name = match utf8_to_string(&bytes[LAYOUT_SIZE_BYTES..LAYOUT_SIZE_BYTES + NAME_SIZE_BYTES]) {
            Some(s) => s,
            None => {
                return Err(MinerError::InvalidText);
            },
        };
        let mut tile_sprites: Vec<Sprite> = Vec::new();
        let mut k: usize = 0;
        while k < TILE_SPRITE_COUNT
            invariant
                bytes@.len() == CAVERN_SIZE_BYTES,
                k <= TILE_SPRITE_COUNT,
                tile_sprites@.len() == k,
                forall|j: int|
                    0 <= j < k ==> sprite_decoded(
                        (#[trigger] tile_sprites@[j])@,
                        8,
                        8,
                        tile_sprite_bytes(bytes@, j),
                    ) && tile_sprites@[j]@.wf8(),
            decreases TILE_SPRITE_COUNT - k,
        {
            let start: usize = 544 + k * TILE_SPRITE_SIZE_BYTES;
            let sprite = match Sprite::try_from_bytes(8, 8, &bytes[start..start + 9]) {
                Ok(s) => s,
                Err(e) => {
                    return Err(e);
                },
            };
            proof {
                assert(bytes@.subrange(start as int, start as int + 9) == tile_sprite_bytes(
                    bytes@,
                    k as int,
                ));
            }
            tile_sprites.push(sprite);
            k += 1;
        }
        Ok(Cavern { layout, name, tile_sprites })
    }
}

/// Round trip on structure: a decoded cavern recovers exactly the byte
/// ranges it came from — 512 layout cells, a name whose UTF-8 encoding
/// is exactly the 32 name bytes, and 8 tile sprites of 8 bitmap bytes
/// each.  Decoding loses nothing of the record's structure.
pub proof fn lemma_cavern_round_trip(c: Cavern, bytes: Seq<u8>)
    requires
        bytes.len() == 1024,
        cavern_decoded(c, bytes),
    ensures
        c.layout.cells@.len() == 512,
        vstd::utf8::encode_utf8(c.name@) == bytes.subrange(512, 544),
        vstd::utf8::encode_utf8(c.name@).len() == 32,
        c.tile_sprites@.len() == 8,
        forall|k: int| 0 <= k < 8 ==> (#[trigger] c.tile_sprites@[k])@.bitmap.len() == 8,
{
    vstd::utf8::decode_utf8_encode_utf8(bytes.subrange(512, 544));
    assert forall|k: int| 0 <= k < 8 implies (#[trigger] c.tile_sprites@[k])@.bitmap.len()
        == 8 by {
        assert(sprite_decoded(c.tile_sprites@[k]@, 8, 8, tile_sprite_bytes(bytes, k)));
    }
}

} // verus!
