//! Decoder core for TIFF-family image directories, including the BigTIFF
//! variant used by large cloud-optimized files.
//!
//! The crate covers the binary directory/entry decoder with its tag-type
//! conversion matrix, and a chunked lazy-loading cache for tag-referenced
//! arrays too large to buffer eagerly. Pixel decompression, geo-referencing
//! and the transport layer are outside its scope.

pub mod cache;
pub mod entry;
pub mod error;
pub mod ifd;
pub mod image;
pub mod overview;
pub mod reader;
pub mod tags;
pub mod util;
pub mod value;

use vstd::prelude::*;

verus! {

/// Byte order of a file, fixed from its magic bytes.
#[derive(Debug, Copy, Clone, PartialEq, Eq, Structural)]
pub enum ByteOrder {
    BigEndian,
    LittleEndian,
}

/// The byte of a fixed-width group that holds the `i`-th least significant
/// eight bits, under the given byte order.
pub open spec fn byte_at(s: Seq<u8>, order: ByteOrder, i: int) -> int {
    match order {
        ByteOrder::LittleEndian => s[i] as int,
        ByteOrder::BigEndian => s[s.len() - 1 - i] as int,
    }
}

/// Value of a two-byte group under the given byte order.
pub open spec fn u16_of(s: Seq<u8>, order: ByteOrder) -> u16
    recommends
        s.len() == 2,
{
    (byte_at(s, order, 0) + 0x100 * byte_at(s, order, 1)) as u16
}

/// Value of a four-byte group under the given byte order.
pub open spec fn u32_of(s: Seq<u8>, order: ByteOrder) -> u32
    recommends
        s.len() == 4,
{
    (byte_at(s, order, 0) + 0x100 * byte_at(s, order, 1) + 0x1_0000 * byte_at(s, order, 2)
        + 0x100_0000 * byte_at(s, order, 3)) as u32
}

/// Value of an eight-byte group under the given byte order.
pub open spec fn u64_of(s: Seq<u8>, order: ByteOrder) -> u64
    recommends
        s.len() == 8,
{
    (byte_at(s, order, 0) + 0x100 * byte_at(s, order, 1) + 0x1_0000 * byte_at(s, order, 2)
        + 0x100_0000 * byte_at(s, order, 3) + 0x1_0000_0000 * byte_at(s, order, 4)
        + 0x100_0000_0000 * byte_at(s, order, 5) + 0x1_0000_0000_0000 * byte_at(s, order, 6)
        + 0x100_0000_0000_0000 * byte_at(s, order, 7)) as u64
}

impl ByteOrder {
    /// Decode a two-byte group read under this byte order.
    pub fn decode_u16(self, b0: u8, b1: u8) -> (r: u16)
        ensures
            r == u16_of(seq![b0, b1], self),
    {
        match self {
            ByteOrder::LittleEndian => b0 as u16 + 0x100 * (b1 as u16),
            ByteOrder::BigEndian => b1 as u16 + 0x100 * (b0 as u16),
        }
    }

    /// Decode a four-byte group read under this byte order.
    pub fn decode_u32(self, b: [u8; 4]) -> (r: u32)
        ensures
            r == u32_of(b@, self),
    {
        let (l0, l1, l2, l3): (u8, u8, u8, u8) = match self {
            ByteOrder::LittleEndian => (b[0], b[1], b[2], b[3]),
            ByteOrder::BigEndian => (b[3], b[2], b[1], b[0]),
        };
        l0 as u32 + 0x100 * (l1 as u32) + 0x1_0000 * (l2 as u32) + 0x100_0000 * (l3 as u32)
    }

    /// Decode an eight-byte group read under this byte order.
    pub fn decode_u64(self, b: [u8; 8]) -> (r: u64)
        ensures
            r == u64_of(b@, self),
    {
        let (l0, l1, l2, l3, l4, l5, l6, l7): (u8, u8, u8, u8, u8, u8, u8, u8) = match self {
            ByteOrder::LittleEndian => (b[0], b[1], b[2], b[3], b[4], b[5], b[6], b[7]),
            ByteOrder::BigEndian => (b[7], b[6], b[5], b[4], b[3], b[2], b[1], b[0]),
        };
        l0 as u64 + 0x100 * (l1 as u64) + 0x1_0000 * (l2 as u64) + 0x100_0000 * (l3 as u64)
            + 0x1_0000_0000 * (l4 as u64) + 0x100_0000_0000 * (l5 as u64)
            + 0x1_0000_0000_0000 * (l6 as u64) + 0x100_0000_0000_0000 * (l7 as u64)
    }
}

/// Chunk layout of an image's data: strips or tiles.
#[derive(Debug, Copy, Clone, PartialEq, Eq, Structural)]
pub enum ChunkType {
    Strip,
    Tile,
}

/// An enumeration over supported color types and their bit depths.
#[derive(Copy, PartialEq, Eq, Structural, Debug, Clone)]
pub enum ColorType {
    /// Pixel is grayscale
    Gray(u8),
    /// Pixel contains R, G and B channels
    RGB(u8),
    /// Pixel is an index into a color palette
    Palette(u8),
    /// Pixel is grayscale with an alpha channel
    GrayA(u8),
    /// Pixel is RGB with an alpha channel
    RGBA(u8),
    /// Pixel is CMYK
    CMYK(u8),
    /// Pixel is YCbCr
    YCbCr(u8),
    /// Pixel has multiple bands/channels
    Multiband { bit_depth: u8, num_samples: u16 },
}

/// The bit depth a color type carries, whatever its channel layout.
pub open spec fn spec_bit_depth(c: ColorType) -> u8 {
    match c {
        ColorType::Gray(b) => b,
        ColorType::RGB(b) => b,
        ColorType::Palette(b) => b,
        ColorType::GrayA(b) => b,
        ColorType::RGBA(b) => b,
        ColorType::CMYK(b) => b,
        ColorType::YCbCr(b) => b,
        ColorType::Multiband { bit_depth, .. } => bit_depth,
    }
}

impl ColorType {
    /// Bit depth of one channel of this color type.
    pub fn bit_depth(&self) -> (r: u8)
        ensures
            r == spec_bit_depth(*self),
    {
        match *self {
            ColorType::Gray(b) => b,
            ColorType::RGB(b) => b,
            ColorType::Palette(b) => b,
            ColorType::GrayA(b) => b,
            ColorType::RGBA(b) => b,
            ColorType::CMYK(b) => b,
            ColorType::YCbCr(b) => b,
            ColorType::Multiband { bit_depth: b, .. } => b,
        }
    }
}

} // verus!
