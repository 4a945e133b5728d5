use tiff2::entry::{BufferedEntry, IfdEntry};
use tiff2::error::{TiffError, TiffFormatError, UsageError};
use tiff2::ifd::Ifd;
use tiff2::tags::{Tag, TagType};
use tiff2::value::Value;
use tiff2::ByteOrder;
use tiff2::image::Image;
use tiff2::tags::{CompressionMethod, PhotometricInterpretation};
use tiff2::ChunkType;

fn parse_one(buf: &[u8], byte_order: ByteOrder, bigtiff: bool) -> Ifd {
    Ifd::from_buffer(&buf.to_vec(), byte_order, bigtiff).unwrap()
}

fn assert_single_entry(ifd: &Ifd, expected: IfdEntry) {
    assert_eq!(ifd.data.entries.len(), 1);
    let tag = Tag::from_u16_exhaustive(0x01_01);
    assert_eq!(ifd.require_tag(&tag).unwrap(), &expected);
}

#[test]
fn test_fits_single_notbig() {
    let cases: Vec<([u8; 14], ByteOrder, Value)> = vec![
        ([1, 0, 1, 1, 1, 0, 1, 0, 0, 0, 42, 0, 0, 0], ByteOrder::LittleEndian, Value::Byte(42)),
        ([0, 1, 1, 1, 0, 1, 0, 0, 0, 1, 42, 0, 0, 0], ByteOrder::BigEndian, Value::Byte(42)),
        ([1, 0, 1, 1, 6, 0, 1, 0, 0, 0, 42, 0, 0, 0], ByteOrder::LittleEndian, Value::SignedByte(42)),
        ([0, 1, 1, 1, 0, 6, 0, 0, 0, 1, 42, 0, 0, 0], ByteOrder::BigEndian, Value::SignedByte(42)),
        ([1, 0, 1, 1, 7, 0, 1, 0, 0, 0, 42, 0, 0, 0], ByteOrder::LittleEndian, Value::Undefined(42)),
        ([0, 1, 1, 1, 0, 7, 0, 0, 0, 1, 42, 0, 0, 0], ByteOrder::BigEndian, Value::Undefined(42)),
        ([1, 0, 1, 1, 2, 0, 1, 0, 0, 0, 0, 0, 0, 0], ByteOrder::LittleEndian, Value::Ascii(Vec::new())),
        ([0, 1, 1, 1, 0, 2, 0, 0, 0, 1, 0, 0, 0, 0], ByteOrder::BigEndian, Value::Ascii(Vec::new())),
        ([1, 0, 1, 1, 3, 0, 1, 0, 0, 0, 42, 0, 0, 0], ByteOrder::LittleEndian, Value::Short(42)),
        ([0, 1, 1, 1, 0, 3, 0, 0, 0, 1, 0, 42, 0, 0], ByteOrder::BigEndian, Value::Short(42)),
        ([1, 0, 1, 1, 8, 0, 1, 0, 0, 0, 42, 0, 0, 0], ByteOrder::LittleEndian, Value::SShort(42)),
        ([0, 1, 1, 1, 0, 8, 0, 0, 0, 1, 0, 42, 0, 0], ByteOrder::BigEndian, Value::SShort(42)),
        ([1, 0, 1, 1, 4, 0, 1, 0, 0, 0, 42, 0, 0, 0], ByteOrder::LittleEndian, Value::Long(42)),
        ([0, 1, 1, 1, 0, 4, 0, 0, 0, 1, 0, 0, 0, 42], ByteOrder::BigEndian, Value::Long(42)),
        ([1, 0, 1, 1, 9, 0, 1, 0, 0, 0, 42, 0, 0, 0], ByteOrder::LittleEndian, Value::SLong(42)),
        ([0, 1, 1, 1, 0, 9, 0, 0, 0, 1, 0, 0, 0, 42], ByteOrder::BigEndian, Value::SLong(42)),
        ([1, 0, 1, 1, 11, 0, 1, 0, 0, 0, 42, 0, 0, 0], ByteOrder::LittleEndian, Value::Float(42)),
        ([0, 1, 1, 1, 0, 11, 0, 0, 0, 1, 0, 0, 0, 42], ByteOrder::BigEndian, Value::Float(42)),
        ([0, 1, 1, 1, 0, 2, 0, 0, 0, 4, b'A', b'B', b'C', 0], ByteOrder::BigEndian, Value::Ascii(b"ABC".to_vec())),
    ];
    for (buf, byte_order, res) in cases {
        let ifd = parse_one(&buf, byte_order, false);
        assert_single_entry(&ifd, IfdEntry::Value(res.to_entry().unwrap()));
    }
}

#[test]
fn test_fits_single_big() {
    let cases: Vec<([u8; 28], ByteOrder, Value)> = vec![
        ([1, 0, 0, 0, 0, 0, 0, 0, 1, 1, 1, 0, 1, 0, 0, 0, 0, 0, 0, 0, 42, 0, 0, 0, 0, 0, 0, 0], ByteOrder::LittleEndian, Value::Byte(42)),
        ([0, 0, 0, 0, 0, 0, 0, 1, 1, 1, 0, 1, 0, 0, 0, 0, 0, 0, 0, 1, 42, 0, 0, 0, 0, 0, 0, 0], ByteOrder::BigEndian, Value::Byte(42)),
        ([1, 0, 0, 0, 0, 0, 0, 0, 1, 1, 6, 0, 1, 0, 0, 0, 0, 0, 0, 0, 42, 0, 0, 0, 0, 0, 0, 0], ByteOrder::LittleEndian, Value::SignedByte(42)),
        ([0, 0, 0, 0, 0, 0, 0, 1, 1, 1, 0, 6, 0, 0, 0, 0, 0, 0, 0, 1, 42, 0, 0, 0, 0, 0, 0, 0], ByteOrder::BigEndian, Value::SignedByte(42)),
        ([1, 0, 0, 0, 0, 0, 0, 0, 1, 1, 2, 0, 1, 0, 0, 0, 0, 0, 0, 0, 0, 0, 0, 0, 0, 0, 0, 0], ByteOrder::LittleEndian, Value::Ascii(Vec::new())),
        ([0, 0, 0, 0, 0, 0, 0, 1, 1, 1, 0, 2, 0, 0, 0, 0, 0, 0, 0, 1, 0, 0, 0, 0, 0, 0, 0, 0], ByteOrder::BigEndian, Value::Ascii(Vec::new())),
        ([1, 0, 0, 0, 0, 0, 0, 0, 1, 1, 3, 0, 1, 0, 0, 0, 0, 0, 0, 0, 42, 0, 0, 0, 0, 0, 0, 0], ByteOrder::LittleEndian, Value::Short(42)),
        ([0, 0, 0, 0, 0, 0, 0, 1, 1, 1, 0, 3, 0, 0, 0, 0, 0, 0, 0, 1, 0, 42, 0, 0, 0, 0, 0, 0], ByteOrder::BigEndian, Value::Short(42)),
        ([1, 0, 0, 0, 0, 0, 0, 0, 1, 1, 8, 0, 1, 0, 0, 0, 0, 0, 0, 0, 42, 0, 0, 0, 0, 0, 0, 0], ByteOrder::LittleEndian, Value::SShort(42)),
        ([0, 0, 0, 0, 0, 0, 0, 1, 1, 1, 0, 8, 0, 0, 0, 0, 0, 0, 0, 1, 0, 42, 0, 0, 0, 0, 0, 0], ByteOrder::BigEndian, Value::SShort(42)),
        ([1, 0, 0, 0, 0, 0, 0, 0, 1, 1, 4, 0, 1, 0, 0, 0, 0, 0, 0, 0, 42, 0, 0, 0, 0, 0, 0, 0], ByteOrder::LittleEndian, Value::Long(42)),
        ([0, 0, 0, 0, 0, 0, 0, 1, 1, 1, 0, 4, 0, 0, 0, 0, 0, 0, 0, 1, 0, 0, 0, 42, 0, 0, 0, 0], ByteOrder::BigEndian, Value::Long(42)),
        ([1, 0, 0, 0, 0, 0, 0, 0, 1, 1, 9, 0, 1, 0, 0, 0, 0, 0, 0, 0, 42, 0, 0, 0, 0, 0, 0, 0], ByteOrder::LittleEndian, Value::SLong(42)),
        ([0, 0, 0, 0, 0, 0, 0, 1, 1, 1, 0, 9, 0, 0, 0, 0, 0, 0, 0, 1, 0, 0, 0, 42, 0, 0, 0, 0], ByteOrder::BigEndian, Value::SLong(42)),
        ([1, 0, 0, 0, 0, 0, 0, 0, 1, 1, 11, 0, 1, 0, 0, 0, 0, 0, 0, 0, 42, 0, 0, 0, 0, 0, 0, 0], ByteOrder::LittleEndian, Value::Float(42)),
        ([0, 0, 0, 0, 0, 0, 0, 1, 1, 1, 0, 11, 0, 0, 0, 0, 0, 0, 0, 1, 0, 0, 0, 42, 0, 0, 0, 0], ByteOrder::BigEndian, Value::Float(42)),
        ([1, 0, 0, 0, 0, 0, 0, 0, 1, 1, 12, 0, 1, 0, 0, 0, 0, 0, 0, 0, 42, 0, 0, 0, 0, 0, 0, 0], ByteOrder::LittleEndian, Value::Double(42)),
        ([0, 0, 0, 0, 0, 0, 0, 1, 1, 1, 0, 12, 0, 0, 0, 0, 0, 0, 0, 1, 0, 0, 0, 0, 0, 0, 0, 42], ByteOrder::BigEndian, Value::Double(42)),
        ([1, 0, 0, 0, 0, 0, 0, 0, 1, 1, 5, 0, 1, 0, 0, 0, 0, 0, 0, 0, 42, 0, 0, 0, 13, 0, 0, 0], ByteOrder::LittleEndian, Value::Rational(42, 13)),
        ([0, 0, 0, 0, 0, 0, 0, 1, 1, 1, 0, 5, 0, 0, 0, 0, 0, 0, 0, 1, 0, 0, 0, 42, 0, 0, 0, 13], ByteOrder::BigEndian, Value::Rational(42, 13)),
        ([1, 0, 0, 0, 0, 0, 0, 0, 1, 1, 10, 0, 1, 0, 0, 0, 0, 0, 0, 0, 42, 0, 0, 0, 13, 0, 0, 0], ByteOrder::LittleEndian, Value::SRational(42, 13)),
        ([0, 0, 0, 0, 0, 0, 0, 1, 1, 1, 0, 10, 0, 0, 0, 0, 0, 0, 0, 1, 0, 0, 0, 42, 0, 0, 0, 13], ByteOrder::BigEndian, Value::SRational(42, 13)),
    ];
    for (buf, byte_order, res) in cases {
        let ifd = parse_one(&buf, byte_order, true);
        assert_single_entry(&ifd, IfdEntry::Value(res.to_entry().unwrap()));
    }
}

fn list_of(mk: impl Fn() -> Value, n: usize) -> Value {
    let mut items = Vec::new();
    for _ in 0..n {
        items.push(mk());
    }
    Value::List(items)
}

#[test]
fn ifd_test_fits_multi_notbig() {
    let cases: Vec<([u8; 14], ByteOrder, Value)> = vec![
        ([1, 0, 1, 1, 1, 0, 4, 0, 0, 0, 42, 42, 42, 42], ByteOrder::LittleEndian, list_of(|| Value::Byte(42), 4)),
        ([0, 1, 1, 1, 0, 1, 0, 0, 0, 4, 42, 42, 42, 42], ByteOrder::BigEndian, list_of(|| Value::Byte(42), 4)),
        ([1, 0, 1, 1, 6, 0, 4, 0, 0, 0, 42, 42, 42, 42], ByteOrder::LittleEndian, list_of(|| Value::SignedByte(42), 4)),
        ([0, 1, 1, 1, 0, 6, 0, 0, 0, 4, 42, 42, 42, 42], ByteOrder::BigEndian, list_of(|| Value::SignedByte(42), 4)),
        ([1, 0, 1, 1, 7, 0, 4, 0, 0, 0, 42, 42, 42, 42], ByteOrder::LittleEndian, list_of(|| Value::Undefined(42), 4)),
        ([0, 1, 1, 1, 0, 7, 0, 0, 0, 4, 42, 42, 42, 42], ByteOrder::BigEndian, list_of(|| Value::Undefined(42), 4)),
        ([1, 0, 1, 1, 2, 0, 4, 0, 0, 0, 42, 42, 42, 0], ByteOrder::LittleEndian, Value::Ascii(b"***".to_vec())),
        ([0, 1, 1, 1, 0, 2, 0, 0, 0, 4, 42, 42, 42, 0], ByteOrder::BigEndian, Value::Ascii(b"***".to_vec())),
        ([1, 0, 1, 1, 3, 0, 2, 0, 0, 0, 42, 0, 42, 0], ByteOrder::LittleEndian, list_of(|| Value::Short(42), 2)),
        ([0, 1, 1, 1, 0, 3, 0, 0, 0, 2, 0, 42, 0, 42], ByteOrder::BigEndian, list_of(|| Value::Short(42), 2)),
        ([1, 0, 1, 1, 8, 0, 2, 0, 0, 0, 42, 0, 42, 0], ByteOrder::LittleEndian, list_of(|| Value::SShort(42), 2)),
        ([0, 1, 1, 1, 0, 8, 0, 0, 0, 2, 0, 42, 0, 42], ByteOrder::BigEndian, list_of(|| Value::SShort(42), 2)),
        ([0, 1, 1, 1, 0, 2, 0, 0, 0, 4, b'A', b'B', b'C', 0], ByteOrder::BigEndian, Value::Ascii(b"ABC".to_vec())),
    ];
    for (buf, byte_order, res) in cases {
        let ifd = parse_one(&buf, byte_order, false);
        assert_single_entry(&ifd, IfdEntry::Value(res.to_entry().unwrap()));
    }
}

#[test]
fn ifd_test_fits_multi_big() {
    let cases: Vec<([u8; 28], ByteOrder, Value)> = vec![
        ([1, 0, 0, 0, 0, 0, 0, 0, 1, 1, 1, 0, 8, 0, 0, 0, 0, 0, 0, 0, 42, 42, 42, 42, 42, 42, 42, 42], ByteOrder::LittleEndian, list_of(|| Value::Byte(42), 8)),
        ([0, 0, 0, 0, 0, 0, 0, 1, 1, 1, 0, 1, 0, 0, 0, 0, 0, 0, 0, 8, 42, 42, 42, 42, 42, 42, 42, 42], ByteOrder::BigEndian, list_of(|| Value::Byte(42), 8)),
        ([1, 0, 0, 0, 0, 0, 0, 0, 1, 1, 6, 0, 8, 0, 0, 0, 0, 0, 0, 0, 42, 42, 42, 42, 42, 42, 42, 42], ByteOrder::LittleEndian, list_of(|| Value::SignedByte(42), 8)),
        ([0, 0, 0, 0, 0, 0, 0, 1, 1, 1, 0, 6, 0, 0, 0, 0, 0, 0, 0, 8, 42, 42, 42, 42, 42, 42, 42, 42], ByteOrder::BigEndian, list_of(|| Value::SignedByte(42), 8)),
        ([1, 0, 0, 0, 0, 0, 0, 0, 1, 1, 7, 0, 8, 0, 0, 0, 0, 0, 0, 0, 42, 42, 42, 42, 42, 42, 42, 42], ByteOrder::LittleEndian, list_of(|| Value::Undefined(42), 8)),
        ([0, 0, 0, 0, 0, 0, 0, 1, 1, 1, 0, 7, 0, 0, 0, 0, 0, 0, 0, 8, 42, 42, 42, 42, 42, 42, 42, 42], ByteOrder::BigEndian, list_of(|| Value::Undefined(42), 8)),
        ([1, 0, 0, 0, 0, 0, 0, 0, 1, 1, 2, 0, 8, 0, 0, 0, 0, 0, 0, 0, 42, 42, 42, 42, 42, 42, 42, 0], ByteOrder::LittleEndian, Value::Ascii(b"*******".to_vec())),
        ([0, 0, 0, 0, 0, 0, 0, 1, 1, 1, 0, 2, 0, 0, 0, 0, 0, 0, 0, 8, 42, 42, 42, 42, 42, 42, 42, 0], ByteOrder::BigEndian, Value::Ascii(b"*******".to_vec())),
        ([1, 0, 0, 0, 0, 0, 0, 0, 1, 1, 3, 0, 4, 0, 0, 0, 0, 0, 0, 0, 42, 0, 42, 0, 42, 0, 42, 0], ByteOrder::LittleEndian, list_of(|| Value::Short(42), 4)),
        ([0, 0, 0, 0, 0, 0, 0, 1, 1, 1, 0, 3, 0, 0, 0, 0, 0, 0, 0, 4, 0, 42, 0, 42, 0, 42, 0, 42], ByteOrder::BigEndian, list_of(|| Value::Short(42), 4)),
        ([1, 0, 0, 0, 0, 0, 0, 0, 1, 1, 8, 0, 4, 0, 0, 0, 0, 0, 0, 0, 42, 0, 42, 0, 42, 0, 42, 0], ByteOrder::LittleEndian, list_of(|| Value::SShort(42), 4)),
        ([0, 0, 0, 0, 0, 0, 0, 1, 1, 1, 0, 8, 0, 0, 0, 0, 0, 0, 0, 4, 0, 42, 0, 42, 0, 42, 0, 42], ByteOrder::BigEndian, list_of(|| Value::SShort(42), 4)),
        ([1, 0, 0, 0, 0, 0, 0, 0, 1, 1, 4, 0, 2, 0, 0, 0, 0, 0, 0, 0, 42, 0, 0, 0, 42, 0, 0, 0], ByteOrder::LittleEndian, list_of(|| Value::Long(42), 2)),
        ([0, 0, 0, 0, 0, 0, 0, 1, 1, 1, 0, 4, 0, 0, 0, 0, 0, 0, 0, 2, 0, 0, 0, 42, 0, 0, 0, 42], ByteOrder::BigEndian, list_of(|| Value::Long(42), 2)),
        ([1, 0, 0, 0, 0, 0, 0, 0, 1, 1, 9, 0, 2, 0, 0, 0, 0, 0, 0, 0, 42, 0, 0, 0, 42, 0, 0, 0], ByteOrder::LittleEndian, list_of(|| Value::SLong(42), 2)),
        ([0, 0, 0, 0, 0, 0, 0, 1, 1, 1, 0, 9, 0, 0, 0, 0, 0, 0, 0, 2, 0, 0, 0, 42, 0, 0, 0, 42], ByteOrder::BigEndian, list_of(|| Value::SLong(42), 2)),
        ([1, 0, 0, 0, 0, 0, 0, 0, 1, 1, 11, 0, 2, 0, 0, 0, 0, 0, 0, 0, 42, 0, 0, 0, 42, 0, 0, 0], ByteOrder::LittleEndian, list_of(|| Value::Float(42), 2)),
        ([0, 0, 0, 0, 0, 0, 0, 1, 1, 1, 0, 11, 0, 0, 0, 0, 0, 0, 0, 2, 0, 0, 0, 42, 0, 0, 0, 42], ByteOrder::BigEndian, list_of(|| Value::Float(42), 2)),
    ];
    for (buf, byte_order, res) in cases {
        let ifd = parse_one(&buf, byte_order, true);
        assert_single_entry(&ifd, IfdEntry::Value(res.to_entry().unwrap()));
    }
}

#[test]
fn ifd_test_notfits_notbig() {
    let cases: Vec<([u8; 14], ByteOrder, u64, TagType)> = vec![
        ([1, 0, 1, 1, 1, 0, 5, 0, 0, 0, 42, 0, 0, 0], ByteOrder::LittleEndian, 5, TagType::BYTE),
        ([0, 1, 1, 1, 0, 1, 0, 0, 0, 5, 0, 0, 0, 42], ByteOrder::BigEndian, 5, TagType::BYTE),
        ([1, 0, 1, 1, 6, 0, 5, 0, 0, 0, 42, 0, 0, 0], ByteOrder::LittleEndian, 5, TagType::SBYTE),
        ([0, 1, 1, 1, 0, 6, 0, 0, 0, 5, 0, 0, 0, 42], ByteOrder::BigEndian, 5, TagType::SBYTE),
        ([1, 0, 1, 1, 7, 0, 5, 0, 0, 0, 42, 0, 0, 0], ByteOrder::LittleEndian, 5, TagType::UNDEFINED),
        ([0, 1, 1, 1, 0, 7, 0, 0, 0, 5, 0, 0, 0, 42], ByteOrder::BigEndian, 5, TagType::UNDEFINED),
        ([1, 0, 1, 1, 2, 0, 5, 0, 0, 0, 42, 0, 0, 0], ByteOrder::LittleEndian, 5, TagType::ASCII),
        ([0, 1, 1, 1, 0, 2, 0, 0, 0, 5, 0, 0, 0, 42], ByteOrder::BigEndian, 5, TagType::ASCII),
        ([1, 0, 1, 1, 3, 0, 3, 0, 0, 0, 42, 0, 0, 0], ByteOrder::LittleEndian, 3, TagType::SHORT),
        ([0, 1, 1, 1, 0, 3, 0, 0, 0, 3, 0, 0, 0, 42], ByteOrder::BigEndian, 3, TagType::SHORT),
        ([1, 0, 1, 1, 8, 0, 3, 0, 0, 0, 42, 0, 0, 0], ByteOrder::LittleEndian, 3, TagType::SSHORT),
        ([0, 1, 1, 1, 0, 8, 0, 0, 0, 3, 0, 0, 0, 42], ByteOrder::BigEndian, 3, TagType::SSHORT),
        ([1, 0, 1, 1, 4, 0, 2, 0, 0, 0, 42, 0, 0, 0], ByteOrder::LittleEndian, 2, TagType::LONG),
        ([0, 1, 1, 1, 0, 4, 0, 0, 0, 2, 0, 0, 0, 42], ByteOrder::BigEndian, 2, TagType::LONG),
        ([1, 0, 1, 1, 9, 0, 2, 0, 0, 0, 42, 0, 0, 0], ByteOrder::LittleEndian, 2, TagType::SLONG),
        ([0, 1, 1, 1, 0, 9, 0, 0, 0, 2, 0, 0, 0, 42], ByteOrder::BigEndian, 2, TagType::SLONG),
        ([1, 0, 1, 1, 11, 0, 2, 0, 0, 0, 42, 0, 0, 0], ByteOrder::LittleEndian, 2, TagType::FLOAT),
        ([0, 1, 1, 1, 0, 11, 0, 0, 0, 2, 0, 0, 0, 42], ByteOrder::BigEndian, 2, TagType::FLOAT),
        ([1, 0, 1, 1, 12, 0, 1, 0, 0, 0, 42, 0, 0, 0], ByteOrder::LittleEndian, 1, TagType::DOUBLE),
        ([0, 1, 1, 1, 0, 12, 0, 0, 0, 1, 0, 0, 0, 42], ByteOrder::BigEndian, 1, TagType::DOUBLE),
        ([1, 0, 1, 1, 5, 0, 1, 0, 0, 0, 42, 0, 0, 0], ByteOrder::LittleEndian, 1, TagType::RATIONAL),
        ([0, 1, 1, 1, 0, 5, 0, 0, 0, 1, 0, 0, 0, 42], ByteOrder::BigEndian, 1, TagType::RATIONAL),
        ([1, 0, 1, 1, 10, 0, 1, 0, 0, 0, 42, 0, 0, 0], ByteOrder::LittleEndian, 1, TagType::SRATIONAL),
        ([0, 1, 1, 1, 0, 10, 0, 0, 0, 1, 0, 0, 0, 42], ByteOrder::BigEndian, 1, TagType::SRATIONAL),
    ];
    for (buf, byte_order, count, tag_type) in cases {
        let ifd = parse_one(&buf, byte_order, false);
        assert_single_entry(&ifd, IfdEntry::Offset { tag_type, count, offset: 42 });
    }
}

#[test]
fn ifd_test_notfits_big() {
    let cases: Vec<([u8; 28], ByteOrder, u64, TagType)> = vec![
        ([1, 0, 0, 0, 0, 0, 0, 0, 1, 1, 1, 0, 9, 0, 0, 0, 0, 0, 0, 0, 42, 0, 0, 0, 0, 0, 0, 0], ByteOrder::LittleEndian, 9, TagType::BYTE),
        ([0, 0, 0, 0, 0, 0, 0, 1, 1, 1, 0, 1, 0, 0, 0, 0, 0, 0, 0, 9, 0, 0, 0, 0, 0, 0, 0, 42], ByteOrder::BigEndian, 9, TagType::BYTE),
        ([1, 0, 0, 0, 0, 0, 0, 0, 1, 1, 6, 0, 9, 0, 0, 0, 0, 0, 0, 0, 42, 0, 0, 0, 0, 0, 0, 0], ByteOrder::LittleEndian, 9, TagType::SBYTE),
        ([0, 0, 0, 0, 0, 0, 0, 1, 1, 1, 0, 6, 0, 0, 0, 0, 0, 0, 0, 9, 0, 0, 0, 0, 0, 0, 0, 42], ByteOrder::BigEndian, 9, TagType::SBYTE),
        ([1, 0, 0, 0, 0, 0, 0, 0, 1, 1, 7, 0, 9, 0, 0, 0, 0, 0, 0, 0, 42, 0, 0, 0, 0, 0, 0, 0], ByteOrder::LittleEndian, 9, TagType::UNDEFINED),
        ([0, 0, 0, 0, 0, 0, 0, 1, 1, 1, 0, 7, 0, 0, 0, 0, 0, 0, 0, 9, 0, 0, 0, 0, 0, 0, 0, 42], ByteOrder::BigEndian, 9, TagType::UNDEFINED),
        ([1, 0, 0, 0, 0, 0, 0, 0, 1, 1, 2, 0, 9, 0, 0, 0, 0, 0, 0, 0, 42, 0, 0, 0, 0, 0, 0, 0], ByteOrder::LittleEndian, 9, TagType::ASCII),
        ([0, 0, 0, 0, 0, 0, 0, 1, 1, 1, 0, 2, 0, 0, 0, 0, 0, 0, 0, 9, 0, 0, 0, 0, 0, 0, 0, 42], ByteOrder::BigEndian, 9, TagType::ASCII),
        ([1, 0, 0, 0, 0, 0, 0, 0, 1, 1, 3, 0, 5, 0, 0, 0, 0, 0, 0, 0, 42, 0, 0, 0, 0, 0, 0, 0], ByteOrder::LittleEndian, 5, TagType::SHORT),
        ([0, 0, 0, 0, 0, 0, 0, 1, 1, 1, 0, 3, 0, 0, 0, 0, 0, 0, 0, 5, 0, 0, 0, 0, 0, 0, 0, 42], ByteOrder::BigEndian, 5, TagType::SHORT),
        ([1, 0, 0, 0, 0, 0, 0, 0, 1, 1, 8, 0, 5, 0, 0, 0, 0, 0, 0, 0, 42, 0, 0, 0, 0, 0, 0, 0], ByteOrder::LittleEndian, 5, TagType::SSHORT),
        ([0, 0, 0, 0, 0, 0, 0, 1, 1, 1, 0, 8, 0, 0, 0, 0, 0, 0, 0, 5, 0, 0, 0, 0, 0, 0, 0, 42], ByteOrder::BigEndian, 5, TagType::SSHORT),
        ([1, 0, 0, 0, 0, 0, 0, 0, 1, 1, 4, 0, 3, 0, 0, 0, 0, 0, 0, 0, 42, 0, 0, 0, 0, 0, 0, 0], ByteOrder::LittleEndian, 3, TagType::LONG),
        ([0, 0, 0, 0, 0, 0, 0, 1, 1, 1, 0, 4, 0, 0, 0, 0, 0, 0, 0, 3, 0, 0, 0, 0, 0, 0, 0, 42], ByteOrder::BigEndian, 3, TagType::LONG),
        ([1, 0, 0, 0, 0, 0, 0, 0, 1, 1, 9, 0, 3, 0, 0, 0, 0, 0, 0, 0, 42, 0, 0, 0, 0, 0, 0, 0], ByteOrder::LittleEndian, 3, TagType::SLONG),
        ([0, 0, 0, 0, 0, 0, 0, 1, 1, 1, 0, 9, 0, 0, 0, 0, 0, 0, 0, 3, 0, 0, 0, 0, 0, 0, 0, 42], ByteOrder::BigEndian, 3, TagType::SLONG),
        ([1, 0, 0, 0, 0, 0, 0, 0, 1, 1, 11, 0, 3, 0, 0, 0, 0, 0, 0, 0, 42, 0, 0, 0, 0, 0, 0, 0], ByteOrder::LittleEndian, 3, TagType::FLOAT),
        ([0, 0, 0, 0, 0, 0, 0, 1, 1, 1, 0, 11, 0, 0, 0, 0, 0, 0, 0, 3, 0, 0, 0, 0, 0, 0, 0, 42], ByteOrder::BigEndian, 3, TagType::FLOAT),
        ([1, 0, 0, 0, 0, 0, 0, 0, 1, 1, 12, 0, 2, 0, 0, 0, 0, 0, 0, 0, 42, 0, 0, 0, 0, 0, 0, 0], ByteOrder::LittleEndian, 2, TagType::DOUBLE),
        ([0, 0, 0, 0, 0, 0, 0, 1, 1, 1, 0, 12, 0, 0, 0, 0, 0, 0, 0, 2, 0, 0, 0, 0, 0, 0, 0, 42], ByteOrder::BigEndian, 2, TagType::DOUBLE),
        ([1, 0, 0, 0, 0, 0, 0, 0, 1, 1, 5, 0, 2, 0, 0, 0, 0, 0, 0, 0, 42, 0, 0, 0, 0, 0, 0, 0], ByteOrder::LittleEndian, 2, TagType::RATIONAL),
        ([0, 0, 0, 0, 0, 0, 0, 1, 1, 1, 0, 5, 0, 0, 0, 0, 0, 0, 0, 2, 0, 0, 0, 0, 0, 0, 0, 42], ByteOrder::BigEndian, 2, TagType::RATIONAL),
        ([1, 0, 0, 0, 0, 0, 0, 0, 1, 1, 10, 0, 2, 0, 0, 0, 0, 0, 0, 0, 42, 0, 0, 0, 0, 0, 0, 0], ByteOrder::LittleEndian, 2, TagType::SRATIONAL),
        ([0, 0, 0, 0, 0, 0, 0, 1, 1, 1, 0, 10, 0, 0, 0, 0, 0, 0, 0, 2, 0, 0, 0, 0, 0, 0, 0, 42], ByteOrder::BigEndian, 2, TagType::SRATIONAL),
    ];
    for (buf, byte_order, count, tag_type) in cases {
        let ifd = parse_one(&buf, byte_order, true);
        assert_single_entry(&ifd, IfdEntry::Offset { tag_type, count, offset: 42 });
    }
}

/// A directory whose bytes name one SHORT with value 300 under tag 0x0100.
#[test]
fn directory_single_short_scenario() {
    let buf: Vec<u8> = vec![
        0x01, 0x00, // one entry
        0x00, 0x01, // tag 0x0100
        0x03, 0x00, // type SHORT
        0x01, 0x00, 0x00, 0x00, // count 1
        0x2C, 0x01, 0x00, 0x00, // value 300
    ];
    let ifd = Ifd::from_buffer(&buf, ByteOrder::LittleEndian, false).unwrap();
    assert_eq!(ifd.data.entries.len(), 1);
    let tag = Tag::from_u16_exhaustive(0x0100);
    let entry = ifd.require_tag_value(&tag).unwrap();
    assert_eq!(entry.try_to_u16().unwrap(), 300);
    assert_eq!(entry.tag_type, TagType::SHORT);
    assert_eq!(entry.count, 1);
}

/// The same tag and type with count three defers behind offset 300.
#[test]
fn directory_deferred_short_scenario() {
    let buf: Vec<u8> = vec![
        0x01, 0x00, // one entry
        0x00, 0x01, // tag 0x0100
        0x03, 0x00, // type SHORT
        0x03, 0x00, 0x00, 0x00, // count 3
        0x2C, 0x01, 0x00, 0x00, // offset 300
    ];
    let ifd = Ifd::from_buffer(&buf, ByteOrder::LittleEndian, false).unwrap();
    let tag = Tag::from_u16_exhaustive(0x0100);
    assert_eq!(
        ifd.require_tag(&tag).unwrap(),
        &IfdEntry::Offset { tag_type: TagType::SHORT, count: 3, offset: 300 }
    );
}

/// A later duplicate tag overwrites the earlier entry.
#[test]
fn directory_duplicate_tag_last_wins() {
    let buf: Vec<u8> = vec![
        0x02, 0x00, // two entries, same tag
        0x00, 0x01, 0x03, 0x00, 0x01, 0x00, 0x00, 0x00, 0x07, 0x00, 0x00, 0x00,
        0x00, 0x01, 0x03, 0x00, 0x01, 0x00, 0x00, 0x00, 0x08, 0x00, 0x00, 0x00,
    ];
    let ifd = Ifd::from_buffer(&buf, ByteOrder::LittleEndian, false).unwrap();
    assert_eq!(ifd.data.entries.len(), 1);
    let tag = Tag::from_u16_exhaustive(0x0100);
    assert_eq!(ifd.require_tag_value(&tag).unwrap().try_to_u16().unwrap(), 8);
}

/// Promoting a deferred entry stores its bytes; promoting again is misuse.
#[test]
fn directory_promote_then_duplicate() {
    let buf: Vec<u8> = vec![
        0x01, 0x00,
        0x00, 0x01, 0x03, 0x00, 0x03, 0x00, 0x00, 0x00, 0x2C, 0x01, 0x00, 0x00,
    ];
    let mut ifd = Ifd::from_buffer(&buf, ByteOrder::LittleEndian, false).unwrap();
    let tag = Tag::from_u16_exhaustive(0x0100);
    assert!(ifd.require_tag_value(&tag).is_err());
    let data = BufferedEntry {
        tag_type: TagType::SHORT,
        count: 3,
        data: vec![1, 0, 2, 0, 3, 0],
    };
    let prev = ifd.insert_tag_data_from_buffer(&tag, data).unwrap();
    assert!(matches!(prev, Some(IfdEntry::Offset { .. })));
    assert_eq!(ifd.require_tag_value(&tag).unwrap().get_u64(2).unwrap(), 3);
    let again = BufferedEntry { tag_type: TagType::SHORT, count: 1, data: vec![9, 0] };
    assert_eq!(
        ifd.insert_tag_data_from_buffer(&tag, again).unwrap_err(),
        TiffError::UsageError(UsageError::DuplicateTagData)
    );
}

/// A missing tag is a format error naming the tag.
#[test]
fn directory_missing_tag_error() {
    let ifd = Ifd::new();
    let tag = Tag::ImageWidth;
    assert_eq!(
        ifd.require_tag(&tag).unwrap_err(),
        TiffError::FormatError(TiffFormatError::RequiredTagNotFound(Tag::ImageWidth))
    );
}

/// A strip-organized directory assembles into image metadata with its
/// chunk arrays attached.
#[test]
fn image_from_ifd_strip_layout() {

    let mut ifd = Ifd::new();
    ifd.data.insert(Tag::ImageWidth, IfdEntry::Value(Value::Short(64).to_entry().unwrap()));
    ifd.data.insert(Tag::ImageLength, IfdEntry::Value(Value::Short(32).to_entry().unwrap()));
    ifd.data.insert(
        Tag::PhotometricInterpretation,
        IfdEntry::Value(Value::Short(1).to_entry().unwrap()),
    );
    let offsets = Value::List(vec![Value::Long(100), Value::Long(200)]).to_entry().unwrap();
    let counts = Value::List(vec![Value::Long(50), Value::Long(50)]).to_entry().unwrap();
    ifd.data.insert(Tag::StripOffsets, IfdEntry::Value(offsets.clone()));
    ifd.data.insert(Tag::StripByteCounts, IfdEntry::Value(counts));
    ifd.data.insert(Tag::RowsPerStrip, IfdEntry::Value(Value::Short(16).to_entry().unwrap()));

    let img = Image::from_ifd(ifd, ByteOrder::LittleEndian).unwrap();
    assert_eq!(img.chunk_metadata.image_width, 64);
    assert_eq!(img.chunk_metadata.image_height, 32);
    assert_eq!(img.chunk_metadata.chunk_type, ChunkType::Strip);
    assert_eq!(img.chunk_metadata.compression_method, CompressionMethod::Uncompressed);
    assert_eq!(
        img.chunk_metadata.photometric_interpretation,
        PhotometricInterpretation::BlackIsZero
    );
    assert_eq!(img.chunk_metadata.strip_decoder.unwrap().rows_per_strip, 16);
    assert_eq!(img.chunk_offsets, offsets);
    assert_eq!(img.chunk_offsets.try_to_uint_vec().unwrap(), vec![100, 200]);
}

/// A directory without its required tags fails naming the first missing
/// tag; a deferred dimension fails naming what must be fetched first.
#[test]
fn image_from_ifd_propagates_tag_errors() {

    let empty = Ifd::new();
    assert_eq!(
        Image::from_ifd(empty, ByteOrder::LittleEndian).unwrap_err(),
        TiffError::FormatError(TiffFormatError::RequiredTagNotFound(Tag::ImageWidth))
    );
    let mut deferred = Ifd::new();
    deferred.data.insert(
        Tag::ImageWidth,
        IfdEntry::Offset { tag_type: TagType::LONG, count: 9, offset: 1000 },
    );
    assert_eq!(
        Image::from_ifd(deferred, ByteOrder::LittleEndian).unwrap_err(),
        TiffError::UsageError(UsageError::RequiredTagNotLoaded(
            Tag::ImageWidth,
            TagType::LONG,
            9,
            1000
        ))
    );
    // both strip and tile tags at once conflict
    let mut both = Ifd::new();
    both.data.insert(Tag::ImageWidth, IfdEntry::Value(Value::Short(8).to_entry().unwrap()));
    both.data.insert(Tag::ImageLength, IfdEntry::Value(Value::Short(8).to_entry().unwrap()));
    both.data.insert(
        Tag::PhotometricInterpretation,
        IfdEntry::Value(Value::Short(1).to_entry().unwrap()),
    );
    let arr = Value::List(vec![Value::Long(1), Value::Long(2)]).to_entry().unwrap();
    both.data.insert(Tag::StripOffsets, IfdEntry::Value(arr.clone()));
    both.data.insert(Tag::StripByteCounts, IfdEntry::Value(arr.clone()));
    both.data.insert(Tag::TileOffsets, IfdEntry::Value(arr.clone()));
    both.data.insert(Tag::TileByteCounts, IfdEntry::Value(arr));
    assert_eq!(
        Image::from_ifd(both, ByteOrder::LittleEndian).unwrap_err(),
        TiffError::FormatError(TiffFormatError::StripTileTagConflict)
    );
}

/// Zero dimensions are rejected with the offending sizes.
#[test]
fn image_from_ifd_rejects_zero_dimensions() {

    let mut ifd = Ifd::new();
    ifd.data.insert(Tag::ImageWidth, IfdEntry::Value(Value::Short(0).to_entry().unwrap()));
    ifd.data.insert(Tag::ImageLength, IfdEntry::Value(Value::Short(32).to_entry().unwrap()));
    assert_eq!(
        Image::from_ifd(ifd, ByteOrder::LittleEndian).unwrap_err(),
        TiffError::FormatError(TiffFormatError::InvalidDimensions(0, 32))
    );
}
