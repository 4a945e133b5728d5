//! Per-image metadata: tile geometry, the fixed per-chunk decode
//! parameters, and the assembly of both from a parsed directory.

use vstd::prelude::*;

use crate::entry::{
    is_reference, reads_unsigned, uint_elem, BufferedEntry, BufferedEntryView, IfdEntryView,
};
use crate::error::{EntrySummary, UsageError};
use crate::error::{TiffError, TiffFormatError, TiffResult, TiffUnsupportedError};
use crate::ifd::Ifd;
use crate::tags::{
    spec_compression_from_u16, spec_photometric_from_u16, spec_planar_from_u16,
    spec_predictor_from_u16, spec_sample_format_from_u16, tag_code, tag_type_size,
    CompressionMethod, PhotometricInterpretation, PlanarConfiguration, Predictor, SampleFormat,
    Tag,
};
use crate::ChunkType;

verus! {

/// Decode state for strip-organized images.
#[derive(Debug, Copy, Clone, PartialEq, Eq, Structural)]
pub struct StripDecodeState {
    pub rows_per_strip: u32,
}

/// Computed values useful for tile decoding.
#[derive(Debug, Copy, Clone, PartialEq, Eq, Structural)]
pub struct TileAttributes {
    pub image_width: usize,
    pub image_height: usize,
    pub tile_width: usize,
    pub tile_length: usize,
}

impl TileAttributes {
    /// The geometry is usable when both tile dimensions are positive, both
    /// image dimensions are positive, and the rounded-up tile counts can be
    /// computed without wrapping.
    pub open spec fn wf(self) -> bool {
        &&& self.tile_width >= 1
        &&& self.tile_length >= 1
        &&& self.image_width >= 1
        &&& self.image_height >= 1
        &&& self.image_width + self.tile_width <= usize::MAX
        &&& self.image_height + self.tile_length <= usize::MAX
    }

    /// How many tile columns cover the image.
    pub open spec fn spec_tiles_across(self) -> int {
        (self.image_width + self.tile_width - 1) as int / self.tile_width as int
    }

    /// How many tile rows cover the image.
    pub open spec fn spec_tiles_down(self) -> int {
        (self.image_height + self.tile_length - 1) as int / self.tile_length as int
    }

    /// Horizontal padding of the rightmost tile column.
    pub open spec fn spec_padding_right(self) -> int {
        (self.tile_width - self.image_width as int % self.tile_width as int) % self.tile_width as int
    }

    /// Vertical padding of the bottom tile row.
    pub open spec fn spec_padding_down(self) -> int {
        (self.tile_length - self.image_height as int % self.tile_length as int)
            % self.tile_length as int
    }

    /// How many tile columns cover the image: the width divided by the tile
    /// width, rounded up.
    pub fn tiles_across(&self) -> (r: usize)
        requires
            self.wf(),
        ensures
            r == self.spec_tiles_across(),
            r >= 1,
    {
        proof {
            assert((self.image_width + self.tile_width - 1) as int / self.tile_width as int
                >= 1) by (nonlinear_arith)
                requires
                    self.image_width >= 1,
                    self.tile_width >= 1,
            ;
        }
        (self.image_width + self.tile_width - 1) / self.tile_width
    }

    /// How many tile rows cover the image: the height divided by the tile
    /// length, rounded up.
    pub fn tiles_down(&self) -> (r: usize)
        requires
            self.wf(),
        ensures
            r == self.spec_tiles_down(),
            r >= 1,
    {
        proof {
            assert((self.image_height + self.tile_length - 1) as int / self.tile_length as int
                >= 1) by (nonlinear_arith)
                requires
                    self.image_height >= 1,
                    self.tile_length >= 1,
            ;
        }
        (self.image_height + self.tile_length - 1) / self.tile_length
    }

    /// Horizontal padding of the rightmost tile column.
    pub fn padding_right(&self) -> (r: usize)
        requires
            self.wf(),
        ensures
            r == self.spec_padding_right(),
    {
        (self.tile_width - self.image_width % self.tile_width) % self.tile_width
    }

    /// Vertical padding of the bottom tile row.
    pub fn padding_down(&self) -> (r: usize)
        requires
            self.wf(),
        ensures
            r == self.spec_padding_down(),
    {
        (self.tile_length - self.image_height % self.tile_length) % self.tile_length
    }

    /// The padding a given tile carries: the rightmost column pads right,
    /// the bottom row pads down, everything else pads nothing.
    pub fn get_padding(&self, tile: usize) -> (r: (usize, usize))
        requires
            self.wf(),
        ensures
            ({
                let across = self.spec_tiles_across();
                let row = tile as int / across;
                let column = tile as int % across;
                &&& r.0 == if column == across - 1 {
                    self.spec_padding_right()
                } else {
                    0
                }
                &&& r.1 == if row == self.spec_tiles_down() - 1 {
                    self.spec_padding_down()
                } else {
                    0
                }
            }),
    {
        let across = self.tiles_across();
        let row = tile / across;
        let column = tile % across;
        let padding_right = if column == across - 1 {
            self.padding_right()
        } else {
            0
        };
        let padding_down = if row == self.tiles_down() - 1 {
            self.padding_down()
        } else {
            0
        };
        (padding_right, padding_down)
    }
}

/// Everything needed to decode any one chunk (strip or tile) of an image;
/// nothing here changes between chunks.
#[derive(Debug)]
pub struct ChunkMetaData {
    pub byte_order: crate::ByteOrder,
    pub image_width: u32,
    pub image_height: u32,
    pub bits_per_sample: u8,
    pub samples: u16,
    pub sample_format: SampleFormat,
    pub photometric_interpretation: PhotometricInterpretation,
    pub compression_method: CompressionMethod,
    pub predictor: Predictor,
    pub jpeg_tables: Option<BufferedEntry>,
    pub planar_config: PlanarConfiguration,
    pub chunk_type: ChunkType,
    pub strip_decoder: Option<StripDecodeState>,
    pub tile_attributes: Option<TileAttributes>,
}

/// Metadata for locating one image's data in the file and choosing how to
/// decode it.
#[derive(Debug)]
pub struct Image {
    /// The directory holding all of this image's tags.
    pub ifd: Ifd,
    /// Parameters that do not change between chunks.
    pub chunk_metadata: ChunkMetaData,
    /// Byte offset of each chunk.
    pub chunk_offsets: BufferedEntry,
    /// Byte count of each chunk.
    pub chunk_bytes: BufferedEntry,
}

/// `spec_try_unsigned`, restated over an entry's mathematical shape.
pub open spec fn view_try_unsigned(be: BufferedEntryView, max: u64) -> Result<u64, TiffError> {
    let w = tag_type_size(be.tag_type);
    if is_reference(be.tag_type) {
        Err(TiffError::UsageError(UsageError::IfdReadIntoEntry))
    } else if be.data.len() != w {
        Err(
            TiffError::FormatError(
                TiffFormatError::InconsistentSizesEncountered(
                    EntrySummary {
                        tag_type: be.tag_type,
                        count: be.count,
                        data_len: be.data.len() as usize,
                    },
                ),
            ),
        )
    } else if !reads_unsigned(be.tag_type) {
        Err(
            TiffError::FormatError(
                TiffFormatError::UnsignedIntegerExpected(
                    EntrySummary {
                        tag_type: be.tag_type,
                        count: be.count,
                        data_len: be.data.len() as usize,
                    },
                ),
            ),
        )
    } else if uint_elem(be.data, w, 0) > max {
        Err(TiffError::IntSizeError)
    } else {
        Ok(uint_elem(be.data, w, 0))
    }
}

/// The resolved entry a required tag holds: a missing tag is a format
/// error, a deferred one a usage error naming what must be fetched.
pub open spec fn spec_required_entry(m: Map<u16, IfdEntryView>, t: Tag) -> Result<
    BufferedEntryView,
    TiffError,
> {
    if !m.contains_key(tag_code(t)) {
        Err(TiffError::FormatError(TiffFormatError::RequiredTagNotFound(t)))
    } else {
        match m[tag_code(t)] {
            IfdEntryView::Offset { tag_type, count, offset } => Err(
                TiffError::UsageError(UsageError::RequiredTagNotLoaded(t, tag_type, count, offset)),
            ),
            IfdEntryView::Value(be) => Ok(be),
        }
    }
}

/// The four-byte unsigned scalar a required tag resolves to.
pub open spec fn spec_required_u32(m: Map<u16, IfdEntryView>, t: Tag) -> Result<u32, TiffError> {
    match spec_required_entry(m, t) {
        Err(e) => Err(e),
        Ok(be) => match view_try_unsigned(be, u32::MAX as u64) {
            Err(e) => Err(e),
            Ok(v) => Ok(v as u32),
        },
    }
}

/// The unsigned scalar an optional tag resolves to, bounded by `max`;
/// absence is not an error, a deferred entry is.
pub open spec fn spec_optional_scalar(m: Map<u16, IfdEntryView>, t: Tag, max: u64) -> Result<
    Option<u64>,
    TiffError,
> {
    if !m.contains_key(tag_code(t)) {
        Ok(Option::None)
    } else {
        match m[tag_code(t)] {
            IfdEntryView::Offset { tag_type, count, offset } => Err(
                TiffError::UsageError(UsageError::RequiredTagNotLoaded(t, tag_type, count, offset)),
            ),
            IfdEntryView::Value(be) => match view_try_unsigned(be, max) {
                Err(e) => Err(e),
                Ok(v) => Ok(Some(v)),
            },
        }
    }
}

/// The decode parameters and chunk arrays a directory assembles into, at
/// the model level.
pub struct ImageModel {
    pub width: u32,
    pub height: u32,
    pub photometric: PhotometricInterpretation,
    pub compression: CompressionMethod,
    pub samples: u16,
    pub bits_per_sample: u8,
    pub sample_format: SampleFormat,
    pub predictor: Predictor,
    pub planar: PlanarConfiguration,
    pub jpeg_tables: Option<BufferedEntryView>,
    pub chunk_type: ChunkType,
    pub chunk_offsets: BufferedEntryView,
    pub chunk_bytes: BufferedEntryView,
    pub rows_per_strip: Option<u32>,
    pub tile_attributes: Option<TileAttributes>,
}

/// What a directory assembles into, step for step: the dimensions first
/// (zero is rejected as soon as both are read), then the sample metadata
/// with its defaults, then the compression tables, then exactly one of the
/// strip or tile layouts with its own validation.
pub open spec fn spec_from_ifd(m: Map<u16, IfdEntryView>) -> Result<ImageModel, TiffError> {
    match spec_required_u32(m, Tag::ImageWidth) {
        Err(e) => Err(e),
        Ok(width) => match spec_required_u32(m, Tag::ImageLength) {
            Err(e) => Err(e),
            Ok(height) => if width == 0 || height == 0 {
                Err(TiffError::FormatError(TiffFormatError::InvalidDimensions(width, height)))
            } else {
                match spec_optional_scalar(m, Tag::PhotometricInterpretation, u16::MAX as u64) {
                    Err(e) => Err(e),
                    Ok(p_opt) => match (match p_opt {
                        Some(v) => spec_photometric_from_u16(v as u16),
                        Option::None => Option::None,
                    }) {
                        Option::None => Err(
                            TiffError::UnsupportedError(TiffUnsupportedError::UnknownInterpretation),
                        ),
                        Some(photometric) => match spec_optional_scalar(
                            m,
                            Tag::Compression,
                            u16::MAX as u64,
                        ) {
                            Err(e) => Err(e),
                            Ok(c_opt) => {
                                let compression = match c_opt {
                                    Some(v) => spec_compression_from_u16(v as u16),
                                    Option::None => CompressionMethod::Uncompressed,
                                };
                                match spec_optional_scalar(m, Tag::SamplesPerPixel, u16::MAX as u64) {
                                    Err(e) => Err(e),
                                    Ok(s_opt) => {
                                        let samples: u16 = match s_opt {
                                            Some(v) => v as u16,
                                            Option::None => 1u16,
                                        };
                                        if samples == 0 {
                                            Err(
                                                TiffError::FormatError(
                                                    TiffFormatError::SamplesPerPixelIsZero,
                                                ),
                                            )
                                        } else {
                                            spec_from_ifd_rest(
                                                m,
                                                width,
                                                height,
                                                photometric,
                                                compression,
                                                samples,
                                            )
                                        }
                                    },
                                }
                            },
                        },
                    },
                }
            },
        },
    }
}

/// The assembly after the dimensions and sample count are settled: bit
/// depth, sample format, predictor and planar configuration with their
/// defaults, then the compression tables and the chunk layout.
pub open spec fn spec_from_ifd_rest(
    m: Map<u16, IfdEntryView>,
    width: u32,
    height: u32,
    photometric: PhotometricInterpretation,
    compression: CompressionMethod,
    samples: u16,
) -> Result<ImageModel, TiffError> {
    match spec_optional_scalar(m, Tag::BitsPerSample, u8::MAX as u64) {
        Err(e) => Err(e),
        Ok(b_opt) => {
            let bits: u8 = match b_opt {
                Some(v) => v as u8,
                Option::None => 1u8,
            };
            match spec_optional_scalar(m, Tag::SampleFormat, u16::MAX as u64) {
                Err(e) => Err(e),
                Ok(f_opt) => {
                    let sample_format = match f_opt {
                        Some(v) => spec_sample_format_from_u16(v as u16),
                        Option::None => SampleFormat::Uint,
                    };
                    match spec_optional_scalar(m, Tag::Predictor, u16::MAX as u64) {
                        Err(e) => Err(e),
                        Ok(pr_opt) => match (match pr_opt {
                            Some(v) => match spec_predictor_from_u16(v as u16) {
                                Some(p) => Ok(p),
                                Option::None => Err(
                                    TiffError::FormatError(
                                        TiffFormatError::UnknownPredictor(v as u16),
                                    ),
                                ),
                            },
                            Option::None => Ok(Predictor::NoPrediction),
                        }) {
                            Err(e) => Err(e),
                            Ok(predictor) => match spec_optional_scalar(
                                m,
                                Tag::PlanarConfiguration,
                                u16::MAX as u64,
                            ) {
                                Err(e) => Err(e),
                                Ok(pl_opt) => match (match pl_opt {
                                    Some(v) => match spec_planar_from_u16(v as u16) {
                                        Some(p) => Ok(p),
                                        Option::None => Err(
                                            TiffError::FormatError(
                                                TiffFormatError::UnknownPlanarConfiguration(
                                                    v as u16,
                                                ),
                                            ),
                                        ),
                                    },
                                    Option::None => Ok(PlanarConfiguration::Chunky),
                                }) {
                                    Err(e) => Err(e),
                                    Ok(planar) => spec_from_ifd_layout(
                                        m,
                                        width,
                                        height,
                                        photometric,
                                        compression,
                                        samples,
                                        bits,
                                        sample_format,
                                        predictor,
                                        planar,
                                    ),
                                },
                            },
                        },
                    }
                },
            }
        },
    }
}

/// The final assembly step: the compression tables when the method calls
/// for them, then exactly one of the strip or tile layouts.
pub open spec fn spec_from_ifd_layout(
    m: Map<u16, IfdEntryView>,
    width: u32,
    height: u32,
    photometric: PhotometricInterpretation,
    compression: CompressionMethod,
    samples: u16,
    bits: u8,
    sample_format: SampleFormat,
    predictor: Predictor,
    planar: PlanarConfiguration,
) -> Result<ImageModel, TiffError> {
    match (if compression == CompressionMethod::ModernJPEG && m.contains_key(
        tag_code(Tag::JPEGTables),
    ) {
        match spec_required_entry(m, Tag::JPEGTables) {
            Err(e) => Err(e),
            Ok(be) => if be.data.len() < 2 {
                Err(
                    TiffError::FormatError(
                        TiffFormatError::InvalidTagValueType(tag_code(Tag::JPEGTables)),
                    ),
                )
            } else {
                Ok(Some(be))
            },
        }
    } else {
        Ok(Option::None)
    }) {
        Err(e) => Err(e),
        Ok(jpeg_tables) => {
            let has_strips = m.contains_key(tag_code(Tag::StripByteCounts)) && m.contains_key(
                tag_code(Tag::StripOffsets),
            );
            let has_tiles = m.contains_key(tag_code(Tag::TileByteCounts)) && m.contains_key(
                tag_code(Tag::TileOffsets),
            );
            if has_strips == has_tiles {
                Err(TiffError::FormatError(TiffFormatError::StripTileTagConflict))
            } else if has_strips {
                match spec_required_entry(m, Tag::StripOffsets) {
                    Err(e) => Err(e),
                    Ok(offsets) => match spec_required_entry(m, Tag::StripByteCounts) {
                        Err(e) => Err(e),
                        Ok(counts) => match spec_optional_scalar(
                            m,
                            Tag::RowsPerStrip,
                            u32::MAX as u64,
                        ) {
                            Err(e) => Err(e),
                            Ok(r_opt) => {
                                let rows: u32 = match r_opt {
                                    Some(v) => v as u32,
                                    Option::None => height,
                                };
                                if rows == 0 {
                                    Err(
                                        TiffError::FormatError(
                                            TiffFormatError::InvalidTagValueType(
                                                tag_code(Tag::RowsPerStrip),
                                            ),
                                        ),
                                    )
                                } else {
                                    Ok(
                                        ImageModel {
                                            width,
                                            height,
                                            photometric,
                                            compression,
                                            samples,
                                            bits_per_sample: bits,
                                            sample_format,
                                            predictor,
                                            planar,
                                            jpeg_tables,
                                            chunk_type: ChunkType::Strip,
                                            chunk_offsets: offsets,
                                            chunk_bytes: counts,
                                            rows_per_strip: Some(rows),
                                            tile_attributes: Option::None,
                                        },
                                    )
                                }
                            },
                        },
                    },
                }
            } else {
                match spec_required_u32(m, Tag::TileWidth) {
                    Err(e) => Err(e),
                    Ok(tw) => match spec_required_u32(m, Tag::TileLength) {
                        Err(e) => Err(e),
                        Ok(tl) => if tw == 0 {
                            Err(
                                TiffError::FormatError(
                                    TiffFormatError::InvalidTagValueType(tag_code(Tag::TileWidth)),
                                ),
                            )
                        } else if tl == 0 {
                            Err(
                                TiffError::FormatError(
                                    TiffFormatError::InvalidTagValueType(tag_code(Tag::TileLength)),
                                ),
                            )
                        } else {
                            match spec_required_entry(m, Tag::TileOffsets) {
                                Err(e) => Err(e),
                                Ok(offsets) => match spec_required_entry(m, Tag::TileByteCounts) {
                                    Err(e) => Err(e),
                                    Ok(counts) => Ok(
                                        ImageModel {
                                            width,
                                            height,
                                            photometric,
                                            compression,
                                            samples,
                                            bits_per_sample: bits,
                                            sample_format,
                                            predictor,
                                            planar,
                                            jpeg_tables,
                                            chunk_type: ChunkType::Tile,
                                            chunk_offsets: offsets,
                                            chunk_bytes: counts,
                                            rows_per_strip: Option::None,
                                            tile_attributes: Some(
                                                TileAttributes {
                                                    image_width: width as usize,
                                                    image_height: height as usize,
                                                    tile_width: tw as usize,
                                                    tile_length: tl as usize,
                                                },
                                            ),
                                        },
                                    ),
                                },
                            }
                        },
                    },
                }
            }
        },
    }
}

/// The resolved entry a required tag holds, cloned out of the directory.
fn required_entry(ifd: &Ifd, tag: Tag) -> (r: TiffResult<BufferedEntry>)
    requires
        ifd.wf(),
    ensures
        match spec_required_entry(ifd@, tag) {
            Ok(bv) => r matches Ok(be) && be@ == bv,
            Err(e) => r == Err::<BufferedEntry, TiffError>(e),
        },
{
    match ifd.require_tag_value(&tag) {
        Ok(be) => Ok(be.clone()),
        Err(e) => Err(e),
    }
}

/// The four-byte unsigned scalar a required tag resolves to.
fn required_u32(ifd: &Ifd, tag: Tag) -> (r: TiffResult<u32>)
    requires
        ifd.wf(),
    ensures
        r == spec_required_u32(ifd@, tag),
{
    match ifd.require_tag_value(&tag) {
        Ok(be) => match be.try_to_u32() {
            Ok(v) => Ok(v),
            Err(e) => Err(e),
        },
        Err(e) => Err(e),
    }
}

/// The two-byte unsigned scalar an optional tag resolves to.
fn optional_u16(ifd: &Ifd, tag: Tag) -> (r: TiffResult<Option<u16>>)
    requires
        ifd.wf(),
    ensures
        match spec_optional_scalar(ifd@, tag, u16::MAX as u64) {
            Ok(Some(v)) => r == Ok::<Option<u16>, TiffError>(Some(v as u16)),
            Ok(Option::None) => r == Ok::<Option<u16>, TiffError>(Option::None),
            Err(e) => r == Err::<Option<u16>, TiffError>(e),
        },
{
    match ifd.get_tag_value(&tag) {
        Ok(Some(be)) => match be.try_to_u16() {
            Ok(v) => Ok(Some(v)),
            Err(e) => Err(e),
        },
        Ok(Option::None) => Ok(Option::None),
        Err(e) => Err(e),
    }
}

/// The one-byte unsigned scalar an optional tag resolves to.
fn optional_u8(ifd: &Ifd, tag: Tag) -> (r: TiffResult<Option<u8>>)
    requires
        ifd.wf(),
    ensures
        match spec_optional_scalar(ifd@, tag, u8::MAX as u64) {
            Ok(Some(v)) => r == Ok::<Option<u8>, TiffError>(Some(v as u8)),
            Ok(Option::None) => r == Ok::<Option<u8>, TiffError>(Option::None),
            Err(e) => r == Err::<Option<u8>, TiffError>(e),
        },
{
    match ifd.get_tag_value(&tag) {
        Ok(Some(be)) => match be.try_to_u8() {
            Ok(v) => Ok(Some(v)),
            Err(e) => Err(e),
        },
        Ok(Option::None) => Ok(Option::None),
        Err(e) => Err(e),
    }
}

/// The four-byte unsigned scalar an optional tag resolves to.
fn optional_u32(ifd: &Ifd, tag: Tag) -> (r: TiffResult<Option<u32>>)
    requires
        ifd.wf(),
    ensures
        match spec_optional_scalar(ifd@, tag, u32::MAX as u64) {
            Ok(Some(v)) => r == Ok::<Option<u32>, TiffError>(Some(v as u32)),
            Ok(Option::None) => r == Ok::<Option<u32>, TiffError>(Option::None),
            Err(e) => r == Err::<Option<u32>, TiffError>(e),
        },
{
    match ifd.get_tag_value(&tag) {
        Ok(Some(be)) => match be.try_to_u32() {
            Ok(v) => Ok(Some(v)),
            Err(e) => Err(e),
        },
        Ok(Option::None) => Ok(Option::None),
        Err(e) => Err(e),
    }
}

impl Image {
    /// Assemble an image from its parsed directory.
    ///
    /// The small metadata tags must already be resolved; the chunk offset
    /// and byte-count arrays must be resolved too (fetch them first if the
    /// directory deferred them). The image must carry either both strip
    /// tags or both tile tags, its dimensions and sample count must be
    /// positive, and its photometric interpretation must be known.
    #[verifier::rlimit(100)]
    pub fn from_ifd(ifd: Ifd, byte_order: crate::ByteOrder) -> (r: TiffResult<Image>)
        requires
            ifd.wf(),
        ensures
            match spec_from_ifd(ifd@) {
                Err(e) => r == Err::<Image, TiffError>(e),
                Ok(model) => r matches Ok(img) && {
                    &&& img.ifd@ == ifd@
                    &&& img.chunk_metadata.byte_order == byte_order
                    &&& img.chunk_metadata.image_width == model.width
                    &&& img.chunk_metadata.image_height == model.height
                    &&& img.chunk_metadata.photometric_interpretation == model.photometric
                    &&& img.chunk_metadata.compression_method == model.compression
                    &&& img.chunk_metadata.samples == model.samples
                    &&& img.chunk_metadata.bits_per_sample == model.bits_per_sample
                    &&& img.chunk_metadata.sample_format == model.sample_format
                    &&& img.chunk_metadata.predictor == model.predictor
                    &&& img.chunk_metadata.planar_config == model.planar
                    &&& match model.jpeg_tables {
                        Some(bv) => img.chunk_metadata.jpeg_tables matches Some(be) && be@ == bv,
                        Option::None => img.chunk_metadata.jpeg_tables is None,
                    }
                    &&& img.chunk_metadata.chunk_type == model.chunk_type
                    &&& img.chunk_offsets@ == model.chunk_offsets
                    &&& img.chunk_bytes@ == model.chunk_bytes
                    &&& match model.rows_per_strip {
                        Some(rp) => img.chunk_metadata.strip_decoder == Some(
                            StripDecodeState { rows_per_strip: rp },
                        ),
                        Option::None => img.chunk_metadata.strip_decoder is None,
                    }
                    &&& img.chunk_metadata.tile_attributes == model.tile_attributes
                },
            },
    {
        let width: u32 = match required_u32(&ifd, Tag::ImageWidth) {
            Ok(v) => v,
            Err(e) => {
                return Err(e);
            },
        };
        let height: u32 = match required_u32(&ifd, Tag::ImageLength) {
            Ok(v) => v,
            Err(e) => {
                return Err(e);
            },
        };
        if width == 0 || height == 0 {
            return Err(TiffError::FormatError(TiffFormatError::InvalidDimensions(width, height)));
        }
        let photometric_interpretation = match optional_u16(&ifd, Tag::PhotometricInterpretation) {
            Ok(Some(v)) => match PhotometricInterpretation::from_u16(v) {
                Some(p) => p,
                Option::None => {
                    return Err(TiffError::UnsupportedError(
                        TiffUnsupportedError::UnknownInterpretation,
                    ));
                },
            },
            Ok(Option::None) => {
                return Err(TiffError::UnsupportedError(
                    TiffUnsupportedError::UnknownInterpretation,
                ));
            },
            Err(e) => {
                return Err(e);
            },
        };
        let compression_method = match optional_u16(&ifd, Tag::Compression) {
            Ok(Some(v)) => CompressionMethod::from_u16_exhaustive(v),
            Ok(Option::None) => CompressionMethod::Uncompressed,
            Err(e) => {
                return Err(e);
            },
        };
        let samples: u16 = match optional_u16(&ifd, Tag::SamplesPerPixel) {
            Ok(Some(v)) => v,
            Ok(Option::None) => 1,
            Err(e) => {
                return Err(e);
            },
        };
        if samples == 0 {
            return Err(TiffError::FormatError(TiffFormatError::SamplesPerPixelIsZero));
        }
        proof {
            assert(spec_from_ifd(ifd@) == spec_from_ifd_rest(
                ifd@,
                width,
                height,
                photometric_interpretation,
                compression_method,
                samples,
            ));
        }
        let bits_per_sample: u8 = match optional_u8(&ifd, Tag::BitsPerSample) {
            Ok(Some(v)) => v,
            Ok(Option::None) => 1,
            Err(e) => {
                return Err(e);
            },
        };
        let sample_format = match optional_u16(&ifd, Tag::SampleFormat) {
            Ok(Some(v)) => SampleFormat::from_u16_exhaustive(v),
            Ok(Option::None) => SampleFormat::Uint,
            Err(e) => {
                return Err(e);
            },
        };
        let predictor = match optional_u16(&ifd, Tag::Predictor) {
            Ok(Some(v)) => match Predictor::from_u16(v) {
                Some(p) => p,
                Option::None => {
                    return Err(TiffError::FormatError(TiffFormatError::UnknownPredictor(v)));
                },
            },
            Ok(Option::None) => Predictor::NoPrediction,
            Err(e) => {
                return Err(e);
            },
        };
        let planar_config = match optional_u16(&ifd, Tag::PlanarConfiguration) {
            Ok(Some(v)) => match PlanarConfiguration::from_u16(v) {
                Some(p) => p,
                Option::None => {
                    return Err(TiffError::FormatError(
                        TiffFormatError::UnknownPlanarConfiguration(v),
                    ));
                },
            },
            Ok(Option::None) => PlanarConfiguration::Chunky,
            Err(e) => {
                return Err(e);
            },
        };
        proof {
            assert(spec_from_ifd(ifd@) == spec_from_ifd_layout(
                ifd@,
                width,
                height,
                photometric_interpretation,
                compression_method,
                samples,
                bits_per_sample,
                sample_format,
                predictor,
                planar_config,
            ));
        }
        let jpeg_tables: Option<BufferedEntry> = if match compression_method {
            CompressionMethod::ModernJPEG => true,
            _ => false,
        } && ifd.contains_key(&Tag::JPEGTables) {
            match required_entry(&ifd, Tag::JPEGTables) {
                Ok(be) => {
                    if be.data.len() < 2 {
                        return Err(TiffError::FormatError(TiffFormatError::InvalidTagValueType(
                            Tag::JPEGTables.to_u16(),
                        )));
                    }
                    Some(be)
                },
                Err(e) => {
                    return Err(e);
                },
            }
        } else {
            Option::None
        };
        let has_strips = ifd.contains_key(&Tag::StripByteCounts) && ifd.contains_key(
            &Tag::StripOffsets,
        );
        let has_tiles = ifd.contains_key(&Tag::TileByteCounts) && ifd.contains_key(
            &Tag::TileOffsets,
        );
        if has_strips == has_tiles {
            return Err(TiffError::FormatError(TiffFormatError::StripTileTagConflict));
        }
        if has_strips {
            let chunk_offsets = match required_entry(&ifd, Tag::StripOffsets) {
                Ok(be) => be,
                Err(e) => {
                    return Err(e);
                },
            };
            let chunk_bytes = match required_entry(&ifd, Tag::StripByteCounts) {
                Ok(be) => be,
                Err(e) => {
                    return Err(e);
                },
            };
            let rows_per_strip: u32 = match optional_u32(&ifd, Tag::RowsPerStrip) {
                Ok(Some(v)) => v,
                Ok(Option::None) => height,
                Err(e) => {
                    return Err(e);
                },
            };
            if rows_per_strip == 0 {
                return Err(TiffError::FormatError(TiffFormatError::InvalidTagValueType(
                    Tag::RowsPerStrip.to_u16(),
                )));
            }
            Ok(Image {
                ifd,
                chunk_metadata: ChunkMetaData {
                    byte_order,
                    image_width: width,
                    image_height: height,
                    bits_per_sample,
                    samples,
                    sample_format,
                    photometric_interpretation,
                    compression_method,
                    predictor,
                    jpeg_tables,
                    planar_config,
                    chunk_type: ChunkType::Strip,
                    strip_decoder: Some(StripDecodeState { rows_per_strip }),
                    tile_attributes: Option::None,
                },
                chunk_offsets,
                chunk_bytes,
            })
        } else {
            let tile_width: u32 = match required_u32(&ifd, Tag::TileWidth) {
                Ok(v) => v,
                Err(e) => {
                    return Err(e);
                },
            };
            let tile_length: u32 = match required_u32(&ifd, Tag::TileLength) {
                Ok(v) => v,
                Err(e) => {
                    return Err(e);
                },
            };
            if tile_width == 0 {
                return Err(TiffError::FormatError(TiffFormatError::InvalidTagValueType(
                    Tag::TileWidth.to_u16(),
                )));
            }
            if tile_length == 0 {
                return Err(TiffError::FormatError(TiffFormatError::InvalidTagValueType(
                    Tag::TileLength.to_u16(),
                )));
            }
            let chunk_offsets = match required_entry(&ifd, Tag::TileOffsets) {
                Ok(be) => be,
                Err(e) => {
                    return Err(e);
                },
            };
            let chunk_bytes = match required_entry(&ifd, Tag::TileByteCounts) {
                Ok(be) => be,
                Err(e) => {
                    return Err(e);
                },
            };
            let tile_attributes = TileAttributes {
                image_width: width as usize,
                image_height: height as usize,
                tile_width: tile_width as usize,
                tile_length: tile_length as usize,
            };
            Ok(Image {
                ifd,
                chunk_metadata: ChunkMetaData {
                    byte_order,
                    image_width: width,
                    image_height: height,
                    bits_per_sample,
                    samples,
                    sample_format,
                    photometric_interpretation,
                    compression_method,
                    predictor,
                    jpeg_tables,
                    planar_config,
                    chunk_type: ChunkType::Tile,
                    strip_decoder: Option::None,
                    tile_attributes: Some(tile_attributes),
                },
                chunk_offsets,
                chunk_bytes,
            })
        }
    }
}

} // verus!
