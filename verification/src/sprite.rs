//! Fixed-size monochrome sprites bound to one attribute byte.
//!
//! A sprite record is `1 + height * (width / 8)` bytes: one attribute
//! byte followed by the packed bitmap, one bit per pixel, most
//! significant bit first within each byte.  A set bit selects the
//! attribute's foreground (ink) color, a clear bit its background
//! (paper) color.

use vstd::prelude::*;

use crate::color::ColorAttribute;
use crate::color::rgba_quad;
use crate::color::spec_decode_attribute;
use crate::error::MinerError;

verus! {

/// An 8-bit-packed sprite: its pixel dimensions, its two-color
/// attribute and its bitmap bytes, stored verbatim from the record.
#[derive(Debug)]
pub struct Sprite {
    pub width: usize,
    pub height: usize,
    pub attribute: ColorAttribute,
    pub bitmap: Vec<u8>,
}

/// The mathematical image of a `Sprite`.
pub ghost struct SpriteV {
    pub width: int,
    pub height: int,
    pub attribute: ColorAttribute,
    pub bitmap: Seq<u8>,
}

impl View for Sprite {
    type V = SpriteV;

    open spec fn view(&self) -> SpriteV {
        SpriteV {
            width: self.width as int,
            height: self.height as int,
            attribute: self.attribute,
            bitmap: self.bitmap@,
        }
    }
}

/// Bit `i` of a packed byte, counted from the most significant bit.
pub open spec fn bit_of(byte: u8, i: int) -> bool
    recommends
        0 <= i < 8,
{
    (byte >> ((7 - i) as u8)) & 1 == 1
}

impl SpriteV {
    /// The number of bitmap bytes per pixel row.
    pub open spec fn row_bytes(self) -> int {
        self.width / 8
    }

    /// Well-formed: whole packed bytes per row, a bitmap of exactly
    /// `height * (width / 8)` bytes, and a valid attribute.
    pub open spec fn wf(self) -> bool {
        &&& self.width % 8 == 0
        &&& self.width >= 0
        &&& self.height >= 0
        &&& self.bitmap.len() == self.height * self.row_bytes()
        &&& self.attribute.wf()
    }

    /// Well-formed at the fixed 8x8 size this format uses for tiles.
    pub open spec fn wf8(self) -> bool {
        &&& self.wf()
        &&& self.width == 8
        &&& self.height == 8
    }

    /// Whether the pixel at (`row`, `col`) shows the foreground color.
    pub open spec fn pixel_on(self, row: int, col: int) -> bool
        recommends
            0 <= row < self.height,
            0 <= col < self.width,
    {
        bit_of(self.bitmap[row * self.row_bytes() + col / 8], col % 8)
    }

    /// The RGBA quad of the pixel at (`row`, `col`).
    pub open spec fn pixel_rgba(self, row: int, col: int) -> Seq<u8>
        recommends
            0 <= row < self.height,
            0 <= col < self.width,
    {
        if self.pixel_on(row, col) {
            rgba_quad(self.attribute.ink, self.attribute.bright)
        } else {
            rgba_quad(self.attribute.paper, self.attribute.bright)
        }
    }
}

/// `v` is the decode of `bytes` at the given dimensions: the first byte
/// is the attribute, the rest is the bitmap, stored verbatim.
pub open spec fn sprite_decoded(v: SpriteV, width: int, height: int, bytes: Seq<u8>) -> bool {
    &&& v.width == width
    &&& v.height == height
    &&& v.attribute == spec_decode_attribute(bytes[0])
    &&& v.bitmap == bytes.subrange(1, bytes.len() as int)
}

impl Sprite {
    /// Decode one sprite record.  Succeeds if and only if `bytes` holds
    /// exactly one attribute byte plus the packed bitmap; any other
    /// length is a `SizeMismatch` naming the expected and found sizes.
    pub fn try_from_bytes(width: usize, height: usize, bytes: &[u8]) -> (r: Result<
        Sprite,
        MinerError,
    >)
        requires
            width % 8 == 0,
            1 + height * (width / 8) <= usize::MAX,
        ensures
            r is Ok <==> bytes@.len() == 1 + height * (width as int / 8),
            r is Ok ==> sprite_decoded(r->Ok_0@, width as int, height as int, bytes@)
                && r->Ok_0@.wf(),
            r is Err ==> r == Err::<Sprite, MinerError>(
                MinerError::SizeMismatch {
                    expected: (1 + height * (width as int / 8)) as usize,
                    found: bytes@.len() as usize,
                },
            ),
    {
        let row_bytes = width / 8;
        let expected: usize = 1 + height * row_bytes;
        if bytes.len() != expected {
            return Err(MinerError::SizeMismatch { expected, found: bytes.len() });
        }
        let attribute = ColorAttribute::decode(bytes[0]);
        let bitmap = vstd::slice::slice_to_vec(&bytes[1..expected]);
        Ok(Sprite { width, height, attribute, bitmap })
    }

    /// An exact copy of this sprite: same dimensions, same attribute,
    /// same bitmap bytes.
    pub fn duplicate(&self) -> (r: Sprite)
        ensures
            r@ == self@,
    {
        let mut bitmap: Vec<u8> = Vec::new();
        let mut i: usize = 0;
        while i < self.bitmap.len()
            invariant
                i <= self.bitmap@.len(),
                bitmap@ == self.bitmap@.subrange(0, i as int),
            decreases self.bitmap@.len() - i,
        {
            bitmap.push(self.bitmap[i]);
            proof {
                assert(bitmap@ =~= self.bitmap@.subrange(0, i + 1));
            }
            i += 1;
        }
        proof {
            assert(bitmap@ =~= self.bitmap@);
        }
        Sprite { width: self.width, height: self.height, attribute: self.attribute, bitmap }
    }

    /// The RGBA quad of the pixel at (`row`, `col`).
    pub fn pixel_rgba_at(&self, row: usize, col: usize) -> (q: [u8; 4])
        requires
            self@.wf(),
            row < self@.height,
            col < self@.width,
        ensures
            q@ == self@.pixel_rgba(row as int, col as int),
    {
        let row_bytes = self.width / 8;
        proof {
            broadcast use vstd::std_specs::vec::axiom_spec_len;

            assert(vstd::std_specs::vec::spec_vec_len(&self.bitmap) == self.bitmap@.len());
            assert(self.bitmap@.len() <= usize::MAX);
            assert(col as int / 8 < row_bytes as int);
            assert(row * row_bytes + col / 8 < self@.height * self@.row_bytes())
                by (nonlinear_arith)
                requires
                    row < self@.height,
                    col as int / 8 < row_bytes as int,
                    row_bytes == self@.row_bytes(),
                    0 <= row,
                    0 <= col as int / 8,
            ;
        }
        let byte = self.bitmap[row * row_bytes + col / 8];
        let shift: u8 = (7 - (col % 8)) as u8;
        let on = (byte >> shift) & 1 == 1;
        if on {
            self.attribute.foreground_rgba()
        } else {
            self.attribute.background_rgba()
        }
    }

    /// Expand the sprite into `height` rows of `width * 4` RGBA bytes,
    /// most significant bit of each packed byte first.  Pure and
    /// repeatable: the result depends only on the sprite's value.
    pub fn to_rgba(&self) -> (rows: Vec<Vec<u8>>)
        requires
            self@.wf(),
            self@.width * 4 <= usize::MAX,
        ensures
            rows@.len() == self@.height,
            forall|r: int| 0 <= r < self@.height ==> (#[trigger] rows@[r])@.len() == self@.width
                * 4,
            forall|r: int, c: int|
                0 <= r < self@.height && 0 <= c < self@.width ==> rows@[r]@.subrange(
                    4 * c,
                    4 * c + 4,
                ) == #[trigger] self@.pixel_rgba(r, c),
    {
        let mut rows: Vec<Vec<u8>> = Vec::new();
        let mut r: usize = 0;
        while r < self.height
            invariant
                self@.wf(),
                self@.width * 4 <= usize::MAX,
                r <= self@.height,
                rows@.len() == r,
                forall|i: int| 0 <= i < r ==> (#[trigger] rows@[i])@.len() == self@.width * 4,
                forall|i: int, c: int|
                    0 <= i < r && 0 <= c < self@.width ==> rows@[i]@.subrange(4 * c, 4 * c + 4)
                        == #[trigger] self@.pixel_rgba(i, c),
            decreases self@.height - r,
        {
            let mut row: Vec<u8> = Vec::new();
            let mut c: usize = 0;
            while c < self.width
                invariant
                    self@.wf(),
                    self@.width * 4 <= usize::MAX,
                    r < self@.height,
                    c <= self@.width,
                    row@.len() == 4 * c,
                    forall|j: int|
                        0 <= j < c ==> row@.subrange(4 * j, 4 * j + 4)
                            == #[trigger] self@.pixel_rgba(r as int, j),
                decreases self@.width - c,
            {
                let q = self.pixel_rgba_at(r, c);
                let ghost before = row@;
                row.push(q[0]);
                row.push(q[1]);
                row.push(q[2]);
                row.push(q[3]);
                proof {
                    assert(row@ =~= before + q@);
                    assert forall|j: int| 0 <= j < c + 1 implies row@.subrange(4 * j, 4 * j + 4)
                        == #[trigger] self@.pixel_rgba(r as int, j) by {
                        if j < c {
                            assert(row@.subrange(4 * j, 4 * j + 4) =~= before.subrange(
                                4 * j,
                                4 * j + 4,
                            ));
                        } else {
                            assert(row@.subrange(4 * j, 4 * j + 4) =~= q@);
                        }
                    }
                }
                c += 1;
            }
            rows.push(row);
            r += 1;
        }
        rows
    }
}

} // verus!
