use tiff2::cache::{ChunkedEntryCache, MaybePartial, MaybePartialIndex};
use tiff2::entry::BufferedEntry;
use tiff2::error::{TiffError, TiffFormatError, UsageError};
use tiff2::image::TileAttributes;
use tiff2::overview::OverviewSet;
use tiff2::reader::EndianReader;
use tiff2::tags::{Tag, TagType};
use tiff2::util::fix_endianness;
use tiff2::ByteOrder;
use tiff2::ColorType;
use tiff2::entry::IfdEntry;
use tiff2::ifd::Ifd;
use tiff2::image::Image;
use tiff2::overview::Overview;
use tiff2::value::Value;

/// The cache issues exactly one fetch descriptor per chunk: the first
/// lookup claims the fetch, every later lookup before completion waits,
/// and after completion every lookup sees the same stored value.
#[test]
fn cache_single_fetch_then_shared_value() {
    let mut cache = ChunkedEntryCache::new(TagType::SHORT, 8, 1000, 4).unwrap();
    let first = cache.get_u64(5).unwrap();
    let (offset, count, buf) = match first {
        MaybePartialIndex::NeedRead { offset, count, buf } => (offset, count, buf),
        _ => panic!("first lookup must claim the fetch"),
    };
    // element 5 lives in chunk 1: bytes [1*4*2, 2*4*2) after the base
    assert_eq!(offset, 1000 + 8);
    assert_eq!(count, 8);
    assert_eq!(buf.len(), 8);
    // a second lookup of the same chunk waits instead of fetching again
    assert!(matches!(cache.get_u64(5).unwrap(), MaybePartialIndex::Pending(1)));
    assert!(matches!(cache.get_u64(7).unwrap(), MaybePartialIndex::Pending(1)));
    // the owner completes the fetch; every lookup now sees the same data
    let data = BufferedEntry { tag_type: TagType::SHORT, count: 4, data: vec![1, 0, 2, 0, 3, 0, 4, 0] };
    cache.complete(1, data).unwrap();
    match cache.get_u64(5).unwrap() {
        MaybePartialIndex::Ready(v) => assert_eq!(v, 2),
        _ => panic!("loaded chunk must answer"),
    }
    match cache.get_u64(7).unwrap() {
        MaybePartialIndex::Ready(v) => assert_eq!(v, 4),
        _ => panic!("loaded chunk must answer"),
    }
    // completing twice is misuse
    let dup = BufferedEntry { tag_type: TagType::SHORT, count: 4, data: vec![0; 8] };
    assert_eq!(
        cache.complete(1, dup).unwrap_err(),
        TiffError::UsageError(UsageError::DuplicateTagData)
    );
}

/// A failed fetch releases the claim: the chunk becomes retryable and the
/// next lookup issues a fresh fetch descriptor.
#[test]
fn cache_failed_fetch_is_retryable() {
    let mut cache = ChunkedEntryCache::new(TagType::BYTE, 32, 0, 16).unwrap();
    assert!(matches!(cache.get_u64(3).unwrap(), MaybePartialIndex::NeedRead { .. }));
    assert!(matches!(cache.get_u64(3).unwrap(), MaybePartialIndex::Pending(0)));
    cache.fail(0).unwrap();
    // the chunk went back to untouched: the next lookup claims it anew
    match cache.get_u64(3).unwrap() {
        MaybePartialIndex::NeedRead { offset, count, .. } => {
            assert_eq!(offset, 0);
            assert_eq!(count, 16);
        },
        _ => panic!("failed chunk must be retryable"),
    }
    // failing a chunk that is not claimed is misuse
    assert_eq!(
        cache.fail(1).unwrap_err(),
        TiffError::UsageError(UsageError::DuplicateTagData)
    );
}

/// A fresh cache with sixteen-element chunks: the lookup that claims chunk
/// forty-two is told to read exactly that chunk's byte range, and a second
/// lookup before completion gets a wait handle, not a second descriptor.
#[test]
fn cache_fetch_descriptor_byte_range() {
    let width = 2u64; // SHORT elements
    let mut cache = ChunkedEntryCache::new(TagType::SHORT, 100_000, 0, 16).unwrap();
    // an element in chunk 42
    let index = 42 * 16;
    match cache.get_u64(index).unwrap() {
        MaybePartialIndex::NeedRead { offset, count, .. } => {
            assert_eq!(offset, 42 * 16 * width);
            assert_eq!(count, 16 * width);
        },
        _ => panic!("fresh chunk must be claimed"),
    }
    match cache.get_u64(index + 1).unwrap() {
        MaybePartialIndex::Pending(chunk) => assert_eq!(chunk, 42),
        _ => panic!("claimed chunk must make later callers wait"),
    }
    // element 42 itself sits in chunk 2 and claims that chunk's range
    match cache.get_u64(42).unwrap() {
        MaybePartialIndex::NeedRead { offset, count, .. } => {
            assert_eq!(offset, 2 * 16 * width);
            assert_eq!(count, 16 * width);
        },
        _ => panic!("fresh chunk must be claimed"),
    }
}

#[test]
fn cache_out_of_range_index_is_limits_exceeded() {
    let mut cache = ChunkedEntryCache::new(TagType::BYTE, 10, 0, 4).unwrap();
    assert_eq!(cache.get_u64(10).unwrap_err(), TiffError::LimitsExceeded);
}

#[test]
fn maybe_partial_whole_answers_directly() {
    let whole = BufferedEntry { tag_type: TagType::LONG, count: 2, data: vec![5, 0, 0, 0, 6, 0, 0, 0] };
    let mut mp = MaybePartial::Whole(whole);
    match mp.get_u64(1).unwrap() {
        MaybePartialIndex::Ready(v) => assert_eq!(v, 6),
        _ => panic!("whole entries never defer"),
    }
}

/// A request against a level that was never loaded fails at once, naming
/// the missing level, and touches nothing else.
#[test]
fn overview_unloaded_level_fails_by_name() {
    let mut set = OverviewSet::new(3);
    assert!(!set.is_loaded(2));
    assert_eq!(
        set.get_chunk_offset(2, 0).unwrap_err(),
        TiffError::UsageError(UsageError::OverviewNotLoaded(2))
    );
    assert_eq!(
        set.get_chunk_offset(7, 0).unwrap_err(),
        TiffError::UsageError(UsageError::OverviewNotLoaded(7))
    );
}

/// Beginning the same directory offset twice before finishing is a cycle.
#[test]
fn overview_parse_cycle_detection() {
    let mut set = OverviewSet::new(1);
    set.begin_parse(64).unwrap();
    assert_eq!(
        set.begin_parse(64).unwrap_err(),
        TiffError::FormatError(TiffFormatError::CycleInOffsets)
    );
    set.finish_parse(64, tiff2::ifd::Ifd::new());
    set.begin_parse(64).unwrap();
}

#[test]
fn fix_endianness_reverses_big_endian_groups() {
    let mut buf = vec![1u8, 2, 3, 4, 5, 6, 7, 8];
    fix_endianness(&mut buf, ByteOrder::BigEndian, 16);
    assert_eq!(buf, vec![2, 1, 4, 3, 6, 5, 8, 7]);
    let mut buf32 = vec![1u8, 2, 3, 4, 5, 6, 7, 8];
    fix_endianness(&mut buf32, ByteOrder::BigEndian, 32);
    assert_eq!(buf32, vec![4, 3, 2, 1, 8, 7, 6, 5]);
    // bytes already in canonical order stay put
    let mut le = vec![1u8, 2, 3, 4];
    fix_endianness(&mut le, ByteOrder::LittleEndian, 16);
    assert_eq!(le, vec![1, 2, 3, 4]);
    // a trailing partial group is left untouched
    let mut odd = vec![1u8, 2, 3];
    fix_endianness(&mut odd, ByteOrder::BigEndian, 16);
    assert_eq!(odd, vec![2, 1, 3]);
    // eight-bit samples never swap
    let mut bytes = vec![1u8, 2, 3];
    fix_endianness(&mut bytes, ByteOrder::BigEndian, 8);
    assert_eq!(bytes, vec![1, 2, 3]);
}

#[test]
fn tile_attributes_geometry() {
    let ta = TileAttributes { image_width: 100, image_height: 50, tile_width: 16, tile_length: 16 };
    assert_eq!(ta.tiles_across(), 7);
    assert_eq!(ta.tiles_down(), 4);
    // tile 6 sits at the right edge of the first row: it pads right only
    assert_eq!(ta.get_padding(6), (12, 0));
    // tile 27 is the bottom-right corner: it pads both ways
    assert_eq!(ta.get_padding(27), (12, 14));
    // an interior tile pads nothing
    assert_eq!(ta.get_padding(8), (0, 0));
}

#[test]
fn color_type_bit_depth() {
    assert_eq!(ColorType::Gray(8).bit_depth(), 8);
    assert_eq!(ColorType::RGB(16).bit_depth(), 16);
    assert_eq!(ColorType::Multiband { bit_depth: 12, num_samples: 5 }.bit_depth(), 12);
}

#[test]
fn tag_registry_round_trips() {
    for code in 1..=18u16 {
        if let Some(t) = TagType::from_u16(code) {
            assert_eq!(t.to_u16(), code);
        } else {
            assert!(code == 14 || code == 15);
        }
    }
    assert_eq!(TagType::RATIONAL.size(), 8);
    assert_eq!(TagType::RATIONAL.primitive_size(), 4);
    assert_eq!(TagType::from_u16(0), None);
    assert_eq!(Tag::from_u16_exhaustive(256), Tag::ImageWidth);
    assert_eq!(Tag::from_u16_exhaustive(9999), Tag::Unknown(9999));
    assert_eq!(Tag::from_u16_exhaustive(9999).to_u16(), 9999);
}

/// Reads under either byte order land on the same decoded primitives.
#[test]
fn endian_reader_primitives() {
    let mut le = EndianReader::wrap(vec![0x2C, 0x01, 0xFE, 0xFF], ByteOrder::LittleEndian);
    assert_eq!(le.read_u16().unwrap(), 300);
    assert_eq!(le.read_i16().unwrap(), -2);
    assert_eq!(le.read_u16().unwrap_err(), TiffError::IoError);
    let mut be = EndianReader::wrap(vec![0x01, 0x2C, 0, 0, 0, 42], ByteOrder::BigEndian);
    assert_eq!(be.read_u16().unwrap(), 300);
    assert_eq!(be.read_u32().unwrap(), 42);
}

/// A loaded level serves chunk-offset lookups through its own cache,
/// leaving every other level untouched.
#[test]
fn overview_loaded_level_delegates_to_cache() {

    let mut ifd = Ifd::new();
    ifd.data.insert(Tag::ImageWidth, IfdEntry::Value(Value::Short(8).to_entry().unwrap()));
    ifd.data.insert(Tag::ImageLength, IfdEntry::Value(Value::Short(8).to_entry().unwrap()));
    ifd.data.insert(
        Tag::PhotometricInterpretation,
        IfdEntry::Value(Value::Short(1).to_entry().unwrap()),
    );
    let offsets = Value::List(vec![Value::Long(100), Value::Long(200)]).to_entry().unwrap();
    let counts = Value::List(vec![Value::Long(50), Value::Long(50)]).to_entry().unwrap();
    ifd.data.insert(Tag::StripOffsets, IfdEntry::Value(offsets));
    ifd.data.insert(Tag::StripByteCounts, IfdEntry::Value(counts.clone()));
    let image = Image::from_ifd(ifd, ByteOrder::LittleEndian).unwrap();

    let cache = ChunkedEntryCache::new(TagType::LONG, 2, 500, 1).unwrap();
    let overview = Overview {
        image,
        chunk_offsets: MaybePartial::Partial(cache),
        chunk_bytes: MaybePartial::Whole(counts),
    };
    let mut set = OverviewSet::new(2);
    set.load_level(0, overview).unwrap();
    assert!(set.is_loaded(0));
    assert!(!set.is_loaded(1));
    match set.get_chunk_offset(0, 1).unwrap() {
        MaybePartialIndex::NeedRead { offset, count, .. } => {
            assert_eq!(offset, 500 + 4);
            assert_eq!(count, 4);
        },
        _ => panic!("fresh chunk must be claimed"),
    }
    // the untouched level still fails by name
    assert_eq!(
        set.get_chunk_offset(1, 0).unwrap_err(),
        TiffError::UsageError(UsageError::OverviewNotLoaded(1))
    );
}
