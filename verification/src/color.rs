//! The attribute-byte color encoding used throughout the caverns region.
//!
//! One byte encodes a foreground ("ink") color index, a background
//! ("paper") color index and a brightness flag.  The bit layout is a
//! compatibility contract with the legacy format and is frozen here:
//!
//! * bits 0..=2: ink index (0..=7)
//! * bits 3..=5: paper index (0..=7)
//! * bit 6: brightness flag
//! * bit 7: unused (the hardware's flash bit; ignored by this decoder)
//!
//! A color index selects an entry of a fixed 8-entry base palette; the
//! brightness flag selects between the normal and the bright variant of
//! that entry.  The palette is likewise frozen: a channel is 0 when its
//! bit is clear, 205 when set and normal, 255 when set and bright, with
//! bit 1 driving red, bit 2 green and bit 0 blue.  Alpha is always 255.

use vstd::prelude::*;

verus! {

/// A decoded attribute byte: ink and paper color indices plus brightness.
///
/// Invariant (`wf`): both indices lie in `0..=7`.  Decoding is total over
/// all 256 byte values; no byte is rejected.
#[derive(Clone, Copy, Debug, PartialEq, Eq, Structural)]
pub struct ColorAttribute {
    pub ink: u8,
    pub paper: u8,
    pub bright: bool,
}

/// The meaning of one attribute byte under the frozen bit layout.
pub open spec fn spec_decode_attribute(byte: u8) -> ColorAttribute {
    ColorAttribute {
        ink: byte & 0x07,
        paper: (byte >> 3u8) & 0x07,
        bright: byte & 0x40 != 0,
    }
}

/// The intensity of one color channel: 0 when off, otherwise scaled by
/// the brightness flag.
pub open spec fn channel_level(on: bool, bright: bool) -> u8 {
    if !on {
        0
    } else if bright {
        255
    } else {
        205
    }
}

/// The RGBA quad for a palette index under a brightness flag: bit 1 of
/// the index drives red, bit 2 green, bit 0 blue; alpha is opaque.
pub open spec fn rgba_quad(index: u8, bright: bool) -> Seq<u8> {
    seq![
        channel_level(index & 0x02 != 0, bright),
        channel_level(index & 0x04 != 0, bright),
        channel_level(index & 0x01 != 0, bright),
        255,
    ]
}

fn channel(on: bool, bright: bool) -> (v: u8)
    ensures
        v == channel_level(on, bright),
{
    if !on {
        0
    } else if bright {
        255
    } else {
        205
    }
}

impl ColorAttribute {
    /// Both color indices lie in the palette range.
    pub open spec fn wf(self) -> bool {
        self.ink < 8 && self.paper < 8
    }

    /// Decode one attribute byte.  Total: every byte value maps to a
    /// well-formed `ColorAttribute`.
    pub fn decode(byte: u8) -> (c: ColorAttribute)
        ensures
            c == spec_decode_attribute(byte),
            c.wf(),
    {
        let c = ColorAttribute {
            ink: byte & 0x07,
            paper: (byte >> 3u8) & 0x07,
            bright: byte & 0x40 != 0,
        };
        proof {
            assert(byte & 0x07 < 8 && (byte >> 3u8) & 0x07 < 8) by (bit_vector);
        }
        c
    }

    /// The RGBA quad of the foreground (ink) color.
    pub fn foreground_rgba(&self) -> (q: [u8; 4])
        ensures
            q@ == rgba_quad(self.ink, self.bright),
    {
        let q = [
            channel(self.ink & 0x02 != 0, self.bright),
            channel(self.ink & 0x04 != 0, self.bright),
            channel(self.ink & 0x01 != 0, self.bright),
            255,
        ];
        proof {
            assert(q@ =~= rgba_quad(self.ink, self.bright));
        }
        q
    }

    /// The RGBA quad of the background (paper) color.
    pub fn background_rgba(&self) -> (q: [u8; 4])
        ensures
            q@ == rgba_quad(self.paper, self.bright),
    {
        let q = [
            channel(self.paper & 0x02 != 0, self.bright),
            channel(self.paper & 0x04 != 0, self.bright),
            channel(self.paper & 0x01 != 0, self.bright),
            255,
        ];
        proof {
            assert(q@ =~= rgba_quad(self.paper, self.bright));
        }
        q
    }
}

/// Every attribute byte decodes to two fully opaque RGBA quads, and the
/// two quads differ whenever the ink and paper indices differ: distinct
/// palette entries are distinct colors.
pub proof fn lemma_attribute_quads(byte: u8)
    ensures
        rgba_quad(spec_decode_attribute(byte).ink, spec_decode_attribute(byte).bright)[3] == 255,
        rgba_quad(spec_decode_attribute(byte).paper, spec_decode_attribute(byte).bright)[3]
            == 255,
        spec_decode_attribute(byte).ink != spec_decode_attribute(byte).paper ==> rgba_quad(
            spec_decode_attribute(byte).ink,
            spec_decode_attribute(byte).bright,
        ) != rgba_quad(spec_decode_attribute(byte).paper, spec_decode_attribute(byte).bright),
{
    let c = spec_decode_attribute(byte);
    assert(byte & 0x07 < 8 && (byte >> 3u8) & 0x07 < 8) by (bit_vector);
    if c.ink != c.paper {
        lemma_palette_distinct(c.ink, c.paper, c.bright);
    }
}

/// Distinct palette indices yield distinct RGBA quads under any one
/// brightness flag.
pub proof fn lemma_palette_distinct(i: u8, j: u8, bright: bool)
    requires
        i < 8,
        j < 8,
        i != j,
    ensures
        rgba_quad(i, bright) != rgba_quad(j, bright),
{
    if rgba_quad(i, bright) == rgba_quad(j, bright) {
        assert(rgba_quad(i, bright)[0] == rgba_quad(j, bright)[0]);
        assert(rgba_quad(i, bright)[1] == rgba_quad(j, bright)[1]);
        assert(rgba_quad(i, bright)[2] == rgba_quad(j, bright)[2]);
        assert((i & 0x02 != 0) == (j & 0x02 != 0));
        assert((i & 0x04 != 0) == (j & 0x04 != 0));
        assert((i & 0x01 != 0) == (j & 0x01 != 0));
        assert(i == j) by (bit_vector)
            requires
                i < 8,
                j < 8,
                (i & 0x02 != 0) == (j & 0x02 != 0),
                (i & 0x04 != 0) == (j & 0x04 != 0),
                (i & 0x01 != 0) == (j & 0x01 != 0),
        ;
    }
}

} // verus!
