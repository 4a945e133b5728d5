//! Static registry of tag identifiers, field types and the auxiliary
//! enumerations a directory's metadata tags decode into.

use vstd::prelude::*;

verus! {

/// Declared on-disk type of a tag's values.
#[derive(Debug, Copy, Clone, PartialEq, Eq, Structural)]
#[allow(non_camel_case_types)]
pub enum TagType {
    BYTE,
    ASCII,
    SHORT,
    LONG,
    RATIONAL,
    SBYTE,
    UNDEFINED,
    SSHORT,
    SLONG,
    SRATIONAL,
    FLOAT,
    DOUBLE,
    IFD,
    LONG8,
    SLONG8,
    IFD8,
}

/// Numeric class of a tag type.
#[derive(Debug, Copy, Clone, PartialEq, Eq, Structural)]
pub enum TagClass {
    Unsigned,
    Signed,
    Float,
    Ascii,
    Rational,
    SignedRational,
    Reference,
}

/// The 16-bit code of each tag type, as the format defines it.
pub open spec fn tag_type_code(t: TagType) -> u16 {
    match t {
        TagType::BYTE => 1,
        TagType::ASCII => 2,
        TagType::SHORT => 3,
        TagType::LONG => 4,
        TagType::RATIONAL => 5,
        TagType::SBYTE => 6,
        TagType::UNDEFINED => 7,
        TagType::SSHORT => 8,
        TagType::SLONG => 9,
        TagType::SRATIONAL => 10,
        TagType::FLOAT => 11,
        TagType::DOUBLE => 12,
        TagType::IFD => 13,
        TagType::LONG8 => 16,
        TagType::SLONG8 => 17,
        TagType::IFD8 => 18,
    }
}

/// The tag type a 16-bit code denotes, if any.
pub open spec fn spec_tag_type_from_u16(code: u16) -> Option<TagType> {
    if code == 1 {
        Some(TagType::BYTE)
    } else if code == 2 {
        Some(TagType::ASCII)
    } else if code == 3 {
        Some(TagType::SHORT)
    } else if code == 4 {
        Some(TagType::LONG)
    } else if code == 5 {
        Some(TagType::RATIONAL)
    } else if code == 6 {
        Some(TagType::SBYTE)
    } else if code == 7 {
        Some(TagType::UNDEFINED)
    } else if code == 8 {
        Some(TagType::SSHORT)
    } else if code == 9 {
        Some(TagType::SLONG)
    } else if code == 10 {
        Some(TagType::SRATIONAL)
    } else if code == 11 {
        Some(TagType::FLOAT)
    } else if code == 12 {
        Some(TagType::DOUBLE)
    } else if code == 13 {
        Some(TagType::IFD)
    } else if code == 16 {
        Some(TagType::LONG8)
    } else if code == 17 {
        Some(TagType::SLONG8)
    } else if code == 18 {
        Some(TagType::IFD8)
    } else {
        None
    }
}

/// Byte width of one element of this tag type.
pub open spec fn tag_type_size(t: TagType) -> nat {
    match t {
        TagType::BYTE => 1,
        TagType::ASCII => 1,
        TagType::SHORT => 2,
        TagType::LONG => 4,
        TagType::RATIONAL => 8,
        TagType::SBYTE => 1,
        TagType::UNDEFINED => 1,
        TagType::SSHORT => 2,
        TagType::SLONG => 4,
        TagType::SRATIONAL => 8,
        TagType::FLOAT => 4,
        TagType::DOUBLE => 8,
        TagType::IFD => 4,
        TagType::LONG8 => 8,
        TagType::SLONG8 => 8,
        TagType::IFD8 => 8,
    }
}

/// Width of the primitive a tag type's elements are built from; a rational is
/// a pair of four-byte primitives, every other type is its own primitive.
pub open spec fn tag_type_primitive_size(t: TagType) -> nat {
    match t {
        TagType::RATIONAL => 4,
        TagType::SRATIONAL => 4,
        _ => tag_type_size(t),
    }
}

/// Numeric class of a tag type.
pub open spec fn tag_type_class(t: TagType) -> TagClass {
    match t {
        TagType::BYTE => TagClass::Unsigned,
        TagType::SHORT => TagClass::Unsigned,
        TagType::LONG => TagClass::Unsigned,
        TagType::LONG8 => TagClass::Unsigned,
        TagType::SBYTE => TagClass::Signed,
        TagType::SSHORT => TagClass::Signed,
        TagType::SLONG => TagClass::Signed,
        TagType::SLONG8 => TagClass::Signed,
        TagType::FLOAT => TagClass::Float,
        TagType::DOUBLE => TagClass::Float,
        TagType::ASCII => TagClass::Ascii,
        TagType::UNDEFINED => TagClass::Ascii,
        TagType::RATIONAL => TagClass::Rational,
        TagType::SRATIONAL => TagClass::SignedRational,
        TagType::IFD => TagClass::Reference,
        TagType::IFD8 => TagClass::Reference,
    }
}

impl TagType {
    /// Look a 16-bit type code up in the registry.
    pub fn from_u16(code: u16) -> (r: Option<TagType>)
        ensures
            r == spec_tag_type_from_u16(code),
    {
        match code {
            1 => Some(TagType::BYTE),
            2 => Some(TagType::ASCII),
            3 => Some(TagType::SHORT),
            4 => Some(TagType::LONG),
            5 => Some(TagType::RATIONAL),
            6 => Some(TagType::SBYTE),
            7 => Some(TagType::UNDEFINED),
            8 => Some(TagType::SSHORT),
            9 => Some(TagType::SLONG),
            10 => Some(TagType::SRATIONAL),
            11 => Some(TagType::FLOAT),
            12 => Some(TagType::DOUBLE),
            13 => Some(TagType::IFD),
            16 => Some(TagType::LONG8),
            17 => Some(TagType::SLONG8),
            18 => Some(TagType::IFD8),
            _ => None,
        }
    }

    /// The 16-bit code this type is written as.
    pub fn to_u16(self) -> (r: u16)
        ensures
            r == tag_type_code(self),
    {
        match self {
            TagType::BYTE => 1,
            TagType::ASCII => 2,
            TagType::SHORT => 3,
            TagType::LONG => 4,
            TagType::RATIONAL => 5,
            TagType::SBYTE => 6,
            TagType::UNDEFINED => 7,
            TagType::SSHORT => 8,
            TagType::SLONG => 9,
            TagType::SRATIONAL => 10,
            TagType::FLOAT => 11,
            TagType::DOUBLE => 12,
            TagType::IFD => 13,
            TagType::LONG8 => 16,
            TagType::SLONG8 => 17,
            TagType::IFD8 => 18,
        }
    }

    /// Byte width of one element of this type.
    pub fn size(self) -> (r: usize)
        ensures
            r == tag_type_size(self),
    {
        match self {
            TagType::BYTE => 1,
            TagType::ASCII => 1,
            TagType::SHORT => 2,
            TagType::LONG => 4,
            TagType::RATIONAL => 8,
            TagType::SBYTE => 1,
            TagType::UNDEFINED => 1,
            TagType::SSHORT => 2,
            TagType::SLONG => 4,
            TagType::SRATIONAL => 8,
            TagType::FLOAT => 4,
            TagType::DOUBLE => 8,
            TagType::IFD => 4,
            TagType::LONG8 => 8,
            TagType::SLONG8 => 8,
            TagType::IFD8 => 8,
        }
    }

    /// Width of the primitive this type's elements are built from.
    pub fn primitive_size(self) -> (r: usize)
        ensures
            r == tag_type_primitive_size(self),
    {
        match self {
            TagType::RATIONAL => 4,
            TagType::SRATIONAL => 4,
            _ => self.size(),
        }
    }

    /// Numeric class of this type.
    pub fn class(self) -> (r: TagClass)
        ensures
            r == tag_type_class(self),
    {
        match self {
            TagType::BYTE => TagClass::Unsigned,
            TagType::SHORT => TagClass::Unsigned,
            TagType::LONG => TagClass::Unsigned,
            TagType::LONG8 => TagClass::Unsigned,
            TagType::SBYTE => TagClass::Signed,
            TagType::SSHORT => TagClass::Signed,
            TagType::SLONG => TagClass::Signed,
            TagType::SLONG8 => TagClass::Signed,
            TagType::FLOAT => TagClass::Float,
            TagType::DOUBLE => TagClass::Float,
            TagType::ASCII => TagClass::Ascii,
            TagType::UNDEFINED => TagClass::Ascii,
            TagType::RATIONAL => TagClass::Rational,
            TagType::SRATIONAL => TagClass::SignedRational,
            TagType::IFD => TagClass::Reference,
            TagType::IFD8 => TagClass::Reference,
        }
    }
}

/// A directory tag: the identifiers this crate gives names to, with an
/// exhaustive fallback for every other 16-bit id.
#[derive(Debug, Copy, Clone, PartialEq, Eq, Structural)]
pub enum Tag {
    ImageWidth,
    ImageLength,
    BitsPerSample,
    Compression,
    PhotometricInterpretation,
    StripOffsets,
    SamplesPerPixel,
    RowsPerStrip,
    StripByteCounts,
    PlanarConfiguration,
    Predictor,
    TileWidth,
    TileLength,
    TileOffsets,
    TileByteCounts,
    SampleFormat,
    JPEGTables,
    Unknown(u16),
}

/// The 16-bit id each named tag is written as.
pub open spec fn tag_code(t: Tag) -> u16 {
    match t {
        Tag::ImageWidth => 256,
        Tag::ImageLength => 257,
        Tag::BitsPerSample => 258,
        Tag::Compression => 259,
        Tag::PhotometricInterpretation => 262,
        Tag::StripOffsets => 273,
        Tag::SamplesPerPixel => 277,
        Tag::RowsPerStrip => 278,
        Tag::StripByteCounts => 279,
        Tag::PlanarConfiguration => 284,
        Tag::Predictor => 317,
        Tag::TileWidth => 322,
        Tag::TileLength => 323,
        Tag::TileOffsets => 324,
        Tag::TileByteCounts => 325,
        Tag::SampleFormat => 339,
        Tag::JPEGTables => 347,
        Tag::Unknown(code) => code,
    }
}

/// The tag a 16-bit id denotes; ids without a name fall back to `Unknown`.
pub open spec fn spec_tag_from_u16(code: u16) -> Tag {
    if code == 256 {
        Tag::ImageWidth
    } else if code == 257 {
        Tag::ImageLength
    } else if code == 258 {
        Tag::BitsPerSample
    } else if code == 259 {
        Tag::Compression
    } else if code == 262 {
        Tag::PhotometricInterpretation
    } else if code == 273 {
        Tag::StripOffsets
    } else if code == 277 {
        Tag::SamplesPerPixel
    } else if code == 278 {
        Tag::RowsPerStrip
    } else if code == 279 {
        Tag::StripByteCounts
    } else if code == 284 {
        Tag::PlanarConfiguration
    } else if code == 317 {
        Tag::Predictor
    } else if code == 322 {
        Tag::TileWidth
    } else if code == 323 {
        Tag::TileLength
    } else if code == 324 {
        Tag::TileOffsets
    } else if code == 325 {
        Tag::TileByteCounts
    } else if code == 339 {
        Tag::SampleFormat
    } else if code == 347 {
        Tag::JPEGTables
    } else {
        Tag::Unknown(code)
    }
}

impl Tag {
    /// Map a 16-bit id to its tag, never failing: unnamed ids keep their code.
    pub fn from_u16_exhaustive(code: u16) -> (r: Tag)
        ensures
            r == spec_tag_from_u16(code),
            tag_code(r) == code,
    {
        match code {
            256 => Tag::ImageWidth,
            257 => Tag::ImageLength,
            258 => Tag::BitsPerSample,
            259 => Tag::Compression,
            262 => Tag::PhotometricInterpretation,
            273 => Tag::StripOffsets,
            277 => Tag::SamplesPerPixel,
            278 => Tag::RowsPerStrip,
            279 => Tag::StripByteCounts,
            284 => Tag::PlanarConfiguration,
            317 => Tag::Predictor,
            322 => Tag::TileWidth,
            323 => Tag::TileLength,
            324 => Tag::TileOffsets,
            325 => Tag::TileByteCounts,
            339 => Tag::SampleFormat,
            347 => Tag::JPEGTables,
            _ => Tag::Unknown(code),
        }
    }

    /// The 16-bit id this tag is written as.
    pub fn to_u16(self) -> (r: u16)
        ensures
            r == tag_code(self),
    {
        match self {
            Tag::ImageWidth => 256,
            Tag::ImageLength => 257,
            Tag::BitsPerSample => 258,
            Tag::Compression => 259,
            Tag::PhotometricInterpretation => 262,
            Tag::StripOffsets => 273,
            Tag::SamplesPerPixel => 277,
            Tag::RowsPerStrip => 278,
            Tag::StripByteCounts => 279,
            Tag::PlanarConfiguration => 284,
            Tag::Predictor => 317,
            Tag::TileWidth => 322,
            Tag::TileLength => 323,
            Tag::TileOffsets => 324,
            Tag::TileByteCounts => 325,
            Tag::SampleFormat => 339,
            Tag::JPEGTables => 347,
            Tag::Unknown(code) => code,
        }
    }
}

/// Compression scheme a directory declares for its image data; decoding the
/// data itself is outside this crate.
#[derive(Debug, Copy, Clone, PartialEq, Eq, Structural)]
pub enum CompressionMethod {
    Uncompressed,
    Huffman,
    Fax3,
    Fax4,
    LZW,
    OldJPEG,
    ModernJPEG,
    Deflate,
    OldDeflate,
    PackBits,
    Unknown(u16),
}

/// The compression method each 16-bit code denotes; codes without a name
/// keep their code.
pub open spec fn spec_compression_from_u16(code: u16) -> CompressionMethod {
    if code == 1 {
        CompressionMethod::Uncompressed
    } else if code == 2 {
        CompressionMethod::Huffman
    } else if code == 3 {
        CompressionMethod::Fax3
    } else if code == 4 {
        CompressionMethod::Fax4
    } else if code == 5 {
        CompressionMethod::LZW
    } else if code == 6 {
        CompressionMethod::OldJPEG
    } else if code == 7 {
        CompressionMethod::ModernJPEG
    } else if code == 8 {
        CompressionMethod::Deflate
    } else if code == 32946 {
        CompressionMethod::OldDeflate
    } else if code == 32773 {
        CompressionMethod::PackBits
    } else {
        CompressionMethod::Unknown(code)
    }
}

impl CompressionMethod {
    /// Map a 16-bit code to its compression method, with an exhaustive
    /// fallback for codes without a name.
    pub fn from_u16_exhaustive(code: u16) -> (r: CompressionMethod)
        ensures
            r == spec_compression_from_u16(code),
    {
        match code {
            1 => CompressionMethod::Uncompressed,
            2 => CompressionMethod::Huffman,
            3 => CompressionMethod::Fax3,
            4 => CompressionMethod::Fax4,
            5 => CompressionMethod::LZW,
            6 => CompressionMethod::OldJPEG,
            7 => CompressionMethod::ModernJPEG,
            8 => CompressionMethod::Deflate,
            32946 => CompressionMethod::OldDeflate,
            32773 => CompressionMethod::PackBits,
            _ => CompressionMethod::Unknown(code),
        }
    }
}

/// Photometric interpretation of the image's samples.
#[derive(Debug, Copy, Clone, PartialEq, Eq, Structural)]
pub enum PhotometricInterpretation {
    WhiteIsZero,
    BlackIsZero,
    RGB,
    RGBPalette,
    TransparencyMask,
    CMYK,
    YCbCr,
    CIELab,
}

/// The interpretation each 16-bit code denotes, if it names one.
pub open spec fn spec_photometric_from_u16(code: u16) -> Option<PhotometricInterpretation> {
    if code == 0 {
        Some(PhotometricInterpretation::WhiteIsZero)
    } else if code == 1 {
        Some(PhotometricInterpretation::BlackIsZero)
    } else if code == 2 {
        Some(PhotometricInterpretation::RGB)
    } else if code == 3 {
        Some(PhotometricInterpretation::RGBPalette)
    } else if code == 4 {
        Some(PhotometricInterpretation::TransparencyMask)
    } else if code == 5 {
        Some(PhotometricInterpretation::CMYK)
    } else if code == 6 {
        Some(PhotometricInterpretation::YCbCr)
    } else if code == 8 {
        Some(PhotometricInterpretation::CIELab)
    } else {
        Option::None
    }
}

impl PhotometricInterpretation {
    /// Map a 16-bit code to its interpretation, if it names one.
    pub fn from_u16(code: u16) -> (r: Option<PhotometricInterpretation>)
        ensures
            r == spec_photometric_from_u16(code),
    {
        match code {
            0 => Some(PhotometricInterpretation::WhiteIsZero),
            1 => Some(PhotometricInterpretation::BlackIsZero),
            2 => Some(PhotometricInterpretation::RGB),
            3 => Some(PhotometricInterpretation::RGBPalette),
            4 => Some(PhotometricInterpretation::TransparencyMask),
            5 => Some(PhotometricInterpretation::CMYK),
            6 => Some(PhotometricInterpretation::YCbCr),
            8 => Some(PhotometricInterpretation::CIELab),
            _ => None,
        }
    }
}

/// Predictor applied before compression.
#[derive(Debug, Copy, Clone, PartialEq, Eq, Structural)]
pub enum Predictor {
    NoPrediction,
    Horizontal,
    FloatingPoint,
}

/// The predictor each 16-bit code denotes, if it names one.
pub open spec fn spec_predictor_from_u16(code: u16) -> Option<Predictor> {
    if code == 1 {
        Some(Predictor::NoPrediction)
    } else if code == 2 {
        Some(Predictor::Horizontal)
    } else if code == 3 {
        Some(Predictor::FloatingPoint)
    } else {
        Option::None
    }
}

impl Predictor {
    /// Map a 16-bit code to its predictor, if it names one.
    pub fn from_u16(code: u16) -> (r: Option<Predictor>)
        ensures
            r == spec_predictor_from_u16(code),
    {
        match code {
            1 => Some(Predictor::NoPrediction),
            2 => Some(Predictor::Horizontal),
            3 => Some(Predictor::FloatingPoint),
            _ => None,
        }
    }
}

/// Whether samples are stored interleaved or in separate planes.
#[derive(Debug, Copy, Clone, PartialEq, Eq, Structural)]
pub enum PlanarConfiguration {
    Chunky,
    Planar,
}

/// The planar configuration each 16-bit code denotes, if it names one.
pub open spec fn spec_planar_from_u16(code: u16) -> Option<PlanarConfiguration> {
    if code == 1 {
        Some(PlanarConfiguration::Chunky)
    } else if code == 2 {
        Some(PlanarConfiguration::Planar)
    } else {
        Option::None
    }
}

impl PlanarConfiguration {
    /// Map a 16-bit code to its planar configuration, if it names one.
    pub fn from_u16(code: u16) -> (r: Option<PlanarConfiguration>)
        ensures
            r == spec_planar_from_u16(code),
    {
        match code {
            1 => Some(PlanarConfiguration::Chunky),
            2 => Some(PlanarConfiguration::Planar),
            _ => None,
        }
    }
}

/// Declared format of the image's samples.
#[derive(Debug, Copy, Clone, PartialEq, Eq, Structural)]
pub enum SampleFormat {
    Uint,
    Int,
    IEEEFP,
    Void,
    Unknown(u16),
}

/// The sample format each 16-bit code denotes; codes without a name keep
/// their code.
pub open spec fn spec_sample_format_from_u16(code: u16) -> SampleFormat {
    if code == 1 {
        SampleFormat::Uint
    } else if code == 2 {
        SampleFormat::Int
    } else if code == 3 {
        SampleFormat::IEEEFP
    } else if code == 4 {
        SampleFormat::Void
    } else {
        SampleFormat::Unknown(code)
    }
}

impl SampleFormat {
    /// Map a 16-bit code to its sample format, with an exhaustive fallback
    /// for codes without a name.
    pub fn from_u16_exhaustive(code: u16) -> (r: SampleFormat)
        ensures
            r == spec_sample_format_from_u16(code),
    {
        match code {
            1 => SampleFormat::Uint,
            2 => SampleFormat::Int,
            3 => SampleFormat::IEEEFP,
            4 => SampleFormat::Void,
            _ => SampleFormat::Unknown(code),
        }
    }
}

} // verus!
