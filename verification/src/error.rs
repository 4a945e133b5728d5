//! Error taxonomy of the decoder core: malformed bytes, unsupported
//! features, misuse of the API, backing-store faults and size limits.

use vstd::prelude::*;

use crate::tags::{CompressionMethod, PhotometricInterpretation, PlanarConfiguration, Tag, TagType};
use crate::{ChunkType, ColorType};

verus! {

/// Structured context an error carries about the entry it concerns: its
/// declared type, element count, and how many raw bytes it held.
#[derive(Debug, Copy, Clone, PartialEq, Eq, Structural)]
pub struct EntrySummary {
    pub tag_type: TagType,
    pub count: u64,
    pub data_len: usize,
}

/// The image is not formatted properly.
#[derive(Debug, Copy, Clone, PartialEq, Eq, Structural)]
pub enum TiffFormatError {
    TiffSignatureNotFound,
    TiffSignatureInvalid,
    ImageFileDirectoryNotFound,
    InconsistentSizesEncountered(EntrySummary),
    InvalidDimensions(u32, u32),
    InvalidTag,
    InvalidTagValueType(u16),
    RequiredTagNotFound(Tag),
    UnknownPredictor(u16),
    UnknownPlanarConfiguration(u16),
    ByteExpected(EntrySummary),
    SignedByteExpected(EntrySummary),
    SignedShortExpected(EntrySummary),
    UnsignedIntegerExpected(EntrySummary),
    SignedIntegerExpected(EntrySummary),
    FloatExpected(EntrySummary),
    AsciiExpected(EntrySummary),
    RequiredTagEmpty(Tag),
    StripTileTagConflict,
    CycleInOffsets,
    SamplesPerPixelIsZero,
}

/// The decoder does not support a feature the image requires.
#[derive(Debug, Copy, Clone, PartialEq, Eq, Structural)]
pub enum TiffUnsupportedError {
    FloatingPointPredictor(ColorType),
    HorizontalPredictor(ColorType),
    UnknownInterpretation,
    UnknownCompressionMethod,
    UnsupportedCompressionMethod(CompressionMethod),
    UnsupportedSampleDepth(u8),
    UnsupportedColorType(ColorType),
    UnsupportedBitsPerChannel(u8),
    UnsupportedPlanarConfig(Option<PlanarConfiguration>),
    UnsupportedDataType,
    UnsupportedInterpretation(PhotometricInterpretation),
    MisalignedTileBoundaries,
}

/// The caller used the decoder in a way a specific image cannot support.
#[derive(Debug, Copy, Clone, PartialEq, Eq, Structural)]
pub enum UsageError {
    InvalidChunkType(ChunkType, ChunkType),
    InvalidChunkIndex(u32),
    PredictorCompressionMismatch,
    PredictorIncompatible,
    PredictorUnavailable,
    /// Directory-reference entries must be parsed as nested directories,
    /// never read through the value converter.
    IfdReadIntoEntry,
    /// The tag's data was already resolved; promoting it twice is misuse.
    DuplicateTagData,
    RequiredTagNotLoaded(Tag, TagType, u64, u64),
    /// A chunk was requested at a resolution level whose directory has not
    /// been loaded; the payload names the missing level.
    OverviewNotLoaded(u16),
}

/// Error kinds of the decoder core.
#[derive(Debug, Copy, Clone, PartialEq, Eq, Structural)]
pub enum TiffError {
    /// The image is not formatted properly.
    FormatError(TiffFormatError),
    /// The decoder does not support a feature the image requires.
    UnsupportedError(TiffUnsupportedError),
    /// The backing store failed; the fault itself stays with the caller.
    IoError,
    /// A size computation exceeded the decoder's limits.
    LimitsExceeded,
    /// An integer conversion to or from a platform size failed.
    IntSizeError,
    /// The image does not support the requested operation.
    UsageError(UsageError),
}

/// Result of a decoding step.
pub type TiffResult<T> = Result<T, TiffError>;

} // verus!
