//! Decoder for a legacy 8-bit game's binary data file: fixed-offset,
//! fixed-size record parsing of attribute-byte color encoding, bitmap
//! unpacking and cavern record composition, plus the sprite-atlas
//! compositor that lays every tile sprite out into one RGBA raster.
//!
//! The library works on plain byte buffers; opening and reading the
//! source file and serializing the raster to an image container are the
//! caller's business.

pub mod atlas;
pub mod cavern;
pub mod color;
pub mod error;
pub mod gamedata;
pub mod sprite;
