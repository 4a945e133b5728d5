use tiff2::entry::{BufferedEntry, IfdEntry};
use tiff2::reader::EndianReader;
use tiff2::tags::TagType;
use tiff2::value::Value;
use tiff2::ByteOrder;

#[test]
fn test_bufferedentry_into_u8slice() {
    let data = vec![42u8; 43];
    let entry = BufferedEntry { tag_type: TagType::BYTE, count: 43, data: data.clone() };
    assert_eq!(entry.try_to_u8_vec().unwrap(), data);
}

fn decode_entry(buf: &[u8], byte_order: ByteOrder, bigtiff: bool) -> IfdEntry {
    let mut r = EndianReader::wrap(buf.to_vec(), byte_order);
    IfdEntry::from_reader(&mut r, bigtiff).unwrap()
}

#[test]
fn test_single_fits_notbig() {
    // personal sanity checks
    assert_eq!(u16::from_le_bytes([42, 0]), 42);
    assert_eq!(u16::from_be_bytes([0, 42]), 42);
    assert_eq!(f32::from_le_bytes([0x42, 0, 0, 0]), f32::from_bits(0x00_00_00_42));
    assert_eq!(f32::from_be_bytes([0, 0, 0, 0x42]), f32::from_bits(0x00_00_00_42));
    let cases: Vec<([u8; 10], ByteOrder, Value)> = vec![
        ([1, 0, 1, 0, 0, 0, 42, 0, 0, 0], ByteOrder::LittleEndian, Value::Byte(42)),
        ([0, 1, 0, 0, 0, 1, 42, 0, 0, 0], ByteOrder::BigEndian, Value::Byte(42)),
        ([6, 0, 1, 0, 0, 0, 42, 0, 0, 0], ByteOrder::LittleEndian, Value::SignedByte(42)),
        ([0, 6, 0, 0, 0, 1, 42, 0, 0, 0], ByteOrder::BigEndian, Value::SignedByte(42)),
        ([7, 0, 1, 0, 0, 0, 42, 0, 0, 0], ByteOrder::LittleEndian, Value::Undefined(42)),
        ([0, 7, 0, 0, 0, 1, 42, 0, 0, 0], ByteOrder::BigEndian, Value::Undefined(42)),
        ([2, 0, 1, 0, 0, 0, 0, 0, 0, 0], ByteOrder::LittleEndian, Value::Ascii(Vec::new())),
        ([0, 2, 0, 0, 0, 1, 0, 0, 0, 0], ByteOrder::BigEndian, Value::Ascii(Vec::new())),
        ([3, 0, 1, 0, 0, 0, 42, 0, 0, 0], ByteOrder::LittleEndian, Value::Short(42)),
        ([0, 3, 0, 0, 0, 1, 0, 42, 0, 0], ByteOrder::BigEndian, Value::Short(42)),
        ([8, 0, 1, 0, 0, 0, 42, 0, 0, 0], ByteOrder::LittleEndian, Value::SShort(42)),
        ([0, 8, 0, 0, 0, 1, 0, 42, 0, 0], ByteOrder::BigEndian, Value::SShort(42)),
        ([4, 0, 1, 0, 0, 0, 42, 0, 0, 0], ByteOrder::LittleEndian, Value::Long(42)),
        ([0, 4, 0, 0, 0, 1, 0, 0, 0, 42], ByteOrder::BigEndian, Value::Long(42)),
        ([9, 0, 1, 0, 0, 0, 42, 0, 0, 0], ByteOrder::LittleEndian, Value::SLong(42)),
        ([0, 9, 0, 0, 0, 1, 0, 0, 0, 42], ByteOrder::BigEndian, Value::SLong(42)),
        ([11, 0, 1, 0, 0, 0, 42, 0, 0, 0], ByteOrder::LittleEndian, Value::Float(42)),
        ([0, 11, 0, 0, 0, 1, 0, 0, 0, 42], ByteOrder::BigEndian, Value::Float(42)),
        // Double doesn't fit, neither 8-types and IFD is special-cased
    ];
    for (buf, byte_order, res) in cases {
        assert_eq!(
            decode_entry(&buf, byte_order, false),
            IfdEntry::Value(res.to_entry().unwrap())
        );
    }
}

#[test]
fn test_single_fits_big() {
    assert_eq!(u16::from_le_bytes([42, 0]), 42);
    assert_eq!(u16::from_be_bytes([0, 42]), 42);
    let cases: Vec<([u8; 18], ByteOrder, Value)> = vec![
        ([1, 0, 1, 0, 0, 0, 0, 0, 0, 0, 42, 0, 0, 0, 0, 0, 0, 0], ByteOrder::LittleEndian, Value::Byte(42)),
        ([0, 1, 0, 0, 0, 0, 0, 0, 0, 1, 42, 0, 0, 0, 0, 0, 0, 0], ByteOrder::BigEndian, Value::Byte(42)),
        ([6, 0, 1, 0, 0, 0, 0, 0, 0, 0, 42, 0, 0, 0, 0, 0, 0, 0], ByteOrder::LittleEndian, Value::SignedByte(42)),
        ([0, 6, 0, 0, 0, 0, 0, 0, 0, 1, 42, 0, 0, 0, 0, 0, 0, 0], ByteOrder::BigEndian, Value::SignedByte(42)),
        ([7, 0, 1, 0, 0, 0, 0, 0, 0, 0, 42, 0, 0, 0, 0, 0, 0, 0], ByteOrder::LittleEndian, Value::Undefined(42)),
        ([0, 7, 0, 0, 0, 0, 0, 0, 0, 1, 42, 0, 0, 0, 0, 0, 0, 0], ByteOrder::BigEndian, Value::Undefined(42)),
        ([2, 0, 1, 0, 0, 0, 0, 0, 0, 0, 0, 0, 0, 0, 0, 0, 0, 0], ByteOrder::LittleEndian, Value::Ascii(Vec::new())),
        ([0, 2, 0, 0, 0, 0, 0, 0, 0, 1, 0, 0, 0, 0, 0, 0, 0, 0], ByteOrder::BigEndian, Value::Ascii(Vec::new())),
        ([3, 0, 1, 0, 0, 0, 0, 0, 0, 0, 42, 0, 0, 0, 0, 0, 0, 0], ByteOrder::LittleEndian, Value::Short(42)),
        ([0, 3, 0, 0, 0, 0, 0, 0, 0, 1, 0, 42, 0, 0, 0, 0, 0, 0], ByteOrder::BigEndian, Value::Short(42)),
        ([8, 0, 1, 0, 0, 0, 0, 0, 0, 0, 42, 0, 0, 0, 0, 0, 0, 0], ByteOrder::LittleEndian, Value::SShort(42)),
        ([0, 8, 0, 0, 0, 0, 0, 0, 0, 1, 0, 42, 0, 0, 0, 0, 0, 0], ByteOrder::BigEndian, Value::SShort(42)),
        ([4, 0, 1, 0, 0, 0, 0, 0, 0, 0, 42, 0, 0, 0, 0, 0, 0, 0], ByteOrder::LittleEndian, Value::Long(42)),
        ([0, 4, 0, 0, 0, 0, 0, 0, 0, 1, 0, 0, 0, 42, 0, 0, 0, 0], ByteOrder::BigEndian, Value::Long(42)),
        ([9, 0, 1, 0, 0, 0, 0, 0, 0, 0, 42, 0, 0, 0, 0, 0, 0, 0], ByteOrder::LittleEndian, Value::SLong(42)),
        ([0, 9, 0, 0, 0, 0, 0, 0, 0, 1, 0, 0, 0, 42, 0, 0, 0, 0], ByteOrder::BigEndian, Value::SLong(42)),
        ([11, 0, 1, 0, 0, 0, 0, 0, 0, 0, 42, 0, 0, 0, 0, 0, 0, 0], ByteOrder::LittleEndian, Value::Float(42)),
        ([0, 11, 0, 0, 0, 0, 0, 0, 0, 1, 0, 0, 0, 42, 0, 0, 0, 0], ByteOrder::BigEndian, Value::Float(42)),
        ([12, 0, 1, 0, 0, 0, 0, 0, 0, 0, 42, 0, 0, 0, 0, 0, 0, 0], ByteOrder::LittleEndian, Value::Double(42)),
        ([0, 12, 0, 0, 0, 0, 0, 0, 0, 1, 0, 0, 0, 0, 0, 0, 0, 42], ByteOrder::BigEndian, Value::Double(42)),
        ([5, 0, 1, 0, 0, 0, 0, 0, 0, 0, 42, 0, 0, 0, 43, 0, 0, 0], ByteOrder::LittleEndian, Value::Rational(42, 43)),
        ([0, 5, 0, 0, 0, 0, 0, 0, 0, 1, 0, 0, 0, 42, 0, 0, 0, 43], ByteOrder::BigEndian, Value::Rational(42, 43)),
        ([10, 0, 1, 0, 0, 0, 0, 0, 0, 0, 42, 0, 0, 0, 43, 0, 0, 0], ByteOrder::LittleEndian, Value::SRational(42, 43)),
        ([0, 10, 0, 0, 0, 0, 0, 0, 0, 1, 0, 0, 0, 42, 0, 0, 0, 43], ByteOrder::BigEndian, Value::SRational(42, 43)),
        // IFD is special-cased
    ];
    for (buf, byte_order, res) in cases {
        assert_eq!(
            decode_entry(&buf, byte_order, true),
            IfdEntry::Value(res.to_entry().unwrap())
        );
    }
}

fn list_of(mk: impl Fn() -> Value, n: usize) -> Value {
    let mut items = Vec::new();
    for _ in 0..n {
        items.push(mk());
    }
    Value::List(items)
}

#[test]
fn entry_test_fits_multi_notbig() {
    let cases: Vec<([u8; 10], ByteOrder, Value)> = vec![
        ([1, 0, 4, 0, 0, 0, 42, 42, 42, 42], ByteOrder::LittleEndian, list_of(|| Value::Byte(42), 4)),
        ([0, 1, 0, 0, 0, 4, 42, 42, 42, 42], ByteOrder::BigEndian, list_of(|| Value::Byte(42), 4)),
        ([6, 0, 4, 0, 0, 0, 42, 42, 42, 42], ByteOrder::LittleEndian, list_of(|| Value::SignedByte(42), 4)),
        ([0, 6, 0, 0, 0, 4, 42, 42, 42, 42], ByteOrder::BigEndian, list_of(|| Value::SignedByte(42), 4)),
        ([7, 0, 4, 0, 0, 0, 42, 42, 42, 42], ByteOrder::LittleEndian, list_of(|| Value::Undefined(42), 4)),
        ([0, 7, 0, 0, 0, 4, 42, 42, 42, 42], ByteOrder::BigEndian, list_of(|| Value::Undefined(42), 4)),
        ([2, 0, 4, 0, 0, 0, 42, 42, 42, 0], ByteOrder::LittleEndian, Value::Ascii(b"***".to_vec())),
        ([0, 2, 0, 0, 0, 4, 42, 42, 42, 0], ByteOrder::BigEndian, Value::Ascii(b"***".to_vec())),
        ([3, 0, 2, 0, 0, 0, 42, 0, 42, 0], ByteOrder::LittleEndian, list_of(|| Value::Short(42), 2)),
        ([0, 3, 0, 0, 0, 2, 0, 42, 0, 42], ByteOrder::BigEndian, list_of(|| Value::Short(42), 2)),
        ([8, 0, 2, 0, 0, 0, 42, 0, 42, 0], ByteOrder::LittleEndian, list_of(|| Value::SShort(42), 2)),
        ([0, 8, 0, 0, 0, 2, 0, 42, 0, 42], ByteOrder::BigEndian, list_of(|| Value::SShort(42), 2)),
        ([0, 2, 0, 0, 0, 4, b'A', b'B', b'C', 0], ByteOrder::BigEndian, Value::Ascii(b"ABC".to_vec())),
    ];
    for (buf, byte_order, res) in cases {
        assert_eq!(
            decode_entry(&buf, byte_order, false),
            IfdEntry::Value(res.to_entry().unwrap())
        );
    }
}

#[test]
fn entry_test_fits_multi_big() {
    let cases: Vec<([u8; 18], ByteOrder, Value)> = vec![
        ([1, 0, 8, 0, 0, 0, 0, 0, 0, 0, 42, 42, 42, 42, 42, 42, 42, 42], ByteOrder::LittleEndian, list_of(|| Value::Byte(42), 8)),
        ([0, 1, 0, 0, 0, 0, 0, 0, 0, 8, 42, 42, 42, 42, 42, 42, 42, 42], ByteOrder::BigEndian, list_of(|| Value::Byte(42), 8)),
        ([6, 0, 8, 0, 0, 0, 0, 0, 0, 0, 42, 42, 42, 42, 42, 42, 42, 42], ByteOrder::LittleEndian, list_of(|| Value::SignedByte(42), 8)),
        ([0, 6, 0, 0, 0, 0, 0, 0, 0, 8, 42, 42, 42, 42, 42, 42, 42, 42], ByteOrder::BigEndian, list_of(|| Value::SignedByte(42), 8)),
        ([7, 0, 8, 0, 0, 0, 0, 0, 0, 0, 42, 42, 42, 42, 42, 42, 42, 42], ByteOrder::LittleEndian, list_of(|| Value::Undefined(42), 8)),
        ([0, 7, 0, 0, 0, 0, 0, 0, 0, 8, 42, 42, 42, 42, 42, 42, 42, 42], ByteOrder::BigEndian, list_of(|| Value::Undefined(42), 8)),
        ([2, 0, 8, 0, 0, 0, 0, 0, 0, 0, 42, 42, 42, 42, 42, 42, 42, 0], ByteOrder::LittleEndian, Value::Ascii(b"*******".to_vec())),
        ([0, 2, 0, 0, 0, 0, 0, 0, 0, 8, 42, 42, 42, 42, 42, 42, 42, 0], ByteOrder::BigEndian, Value::Ascii(b"*******".to_vec())),
        ([3, 0, 4, 0, 0, 0, 0, 0, 0, 0, 42, 0, 42, 0, 42, 0, 42, 0], ByteOrder::LittleEndian, list_of(|| Value::Short(42), 4)),
        ([0, 3, 0, 0, 0, 0, 0, 0, 0, 4, 0, 42, 0, 42, 0, 42, 0, 42], ByteOrder::BigEndian, list_of(|| Value::Short(42), 4)),
        ([8, 0, 4, 0, 0, 0, 0, 0, 0, 0, 42, 0, 42, 0, 42, 0, 42, 0], ByteOrder::LittleEndian, list_of(|| Value::SShort(42), 4)),
        ([0, 8, 0, 0, 0, 0, 0, 0, 0, 4, 0, 42, 0, 42, 0, 42, 0, 42], ByteOrder::BigEndian, list_of(|| Value::SShort(42), 4)),
        ([4, 0, 2, 0, 0, 0, 0, 0, 0, 0, 42, 0, 0, 0, 42, 0, 0, 0], ByteOrder::LittleEndian, list_of(|| Value::Long(42), 2)),
        ([0, 4, 0, 0, 0, 0, 0, 0, 0, 2, 0, 0, 0, 42, 0, 0, 0, 42], ByteOrder::BigEndian, list_of(|| Value::Long(42), 2)),
        ([9, 0, 2, 0, 0, 0, 0, 0, 0, 0, 42, 0, 0, 0, 42, 0, 0, 0], ByteOrder::LittleEndian, list_of(|| Value::SLong(42), 2)),
        ([0, 9, 0, 0, 0, 0, 0, 0, 0, 2, 0, 0, 0, 42, 0, 0, 0, 42], ByteOrder::BigEndian, list_of(|| Value::SLong(42), 2)),
        ([11, 0, 2, 0, 0, 0, 0, 0, 0, 0, 42, 0, 0, 0, 42, 0, 0, 0], ByteOrder::LittleEndian, list_of(|| Value::Float(42), 2)),
        ([0, 11, 0, 0, 0, 0, 0, 0, 0, 2, 0, 0, 0, 42, 0, 0, 0, 42], ByteOrder::BigEndian, list_of(|| Value::Float(42), 2)),
    ];
    for (buf, byte_order, res) in cases {
        assert_eq!(
            decode_entry(&buf, byte_order, true),
            IfdEntry::Value(res.to_entry().unwrap())
        );
    }
}

#[test]
fn entry_test_notfits_notbig() {
    let cases: Vec<([u8; 10], ByteOrder, u64, TagType)> = vec![
        ([1, 0, 5, 0, 0, 0, 42, 0, 0, 0], ByteOrder::LittleEndian, 5, TagType::BYTE),
        ([0, 1, 0, 0, 0, 5, 0, 0, 0, 42], ByteOrder::BigEndian, 5, TagType::BYTE),
        ([6, 0, 5, 0, 0, 0, 42, 0, 0, 0], ByteOrder::LittleEndian, 5, TagType::SBYTE),
        ([0, 6, 0, 0, 0, 5, 0, 0, 0, 42], ByteOrder::BigEndian, 5, TagType::SBYTE),
        ([7, 0, 5, 0, 0, 0, 42, 0, 0, 0], ByteOrder::LittleEndian, 5, TagType::UNDEFINED),
        ([0, 7, 0, 0, 0, 5, 0, 0, 0, 42], ByteOrder::BigEndian, 5, TagType::UNDEFINED),
        ([2, 0, 5, 0, 0, 0, 42, 0, 0, 0], ByteOrder::LittleEndian, 5, TagType::ASCII),
        ([0, 2, 0, 0, 0, 5, 0, 0, 0, 42], ByteOrder::BigEndian, 5, TagType::ASCII),
        ([3, 0, 3, 0, 0, 0, 42, 0, 0, 0], ByteOrder::LittleEndian, 3, TagType::SHORT),
        ([0, 3, 0, 0, 0, 3, 0, 0, 0, 42], ByteOrder::BigEndian, 3, TagType::SHORT),
        ([8, 0, 3, 0, 0, 0, 42, 0, 0, 0], ByteOrder::LittleEndian, 3, TagType::SSHORT),
        ([0, 8, 0, 0, 0, 3, 0, 0, 0, 42], ByteOrder::BigEndian, 3, TagType::SSHORT),
        ([4, 0, 2, 0, 0, 0, 42, 0, 0, 0], ByteOrder::LittleEndian, 2, TagType::LONG),
        ([0, 4, 0, 0, 0, 2, 0, 0, 0, 42], ByteOrder::BigEndian, 2, TagType::LONG),
        ([9, 0, 2, 0, 0, 0, 42, 0, 0, 0], ByteOrder::LittleEndian, 2, TagType::SLONG),
        ([0, 9, 0, 0, 0, 2, 0, 0, 0, 42], ByteOrder::BigEndian, 2, TagType::SLONG),
        ([11, 0, 2, 0, 0, 0, 42, 0, 0, 0], ByteOrder::LittleEndian, 2, TagType::FLOAT),
        ([0, 11, 0, 0, 0, 2, 0, 0, 0, 42], ByteOrder::BigEndian, 2, TagType::FLOAT),
        ([12, 0, 1, 0, 0, 0, 42, 0, 0, 0], ByteOrder::LittleEndian, 1, TagType::DOUBLE),
        ([0, 12, 0, 0, 0, 1, 0, 0, 0, 42], ByteOrder::BigEndian, 1, TagType::DOUBLE),
        ([5, 0, 1, 0, 0, 0, 42, 0, 0, 0], ByteOrder::LittleEndian, 1, TagType::RATIONAL),
        ([0, 5, 0, 0, 0, 1, 0, 0, 0, 42], ByteOrder::BigEndian, 1, TagType::RATIONAL),
        ([10, 0, 1, 0, 0, 0, 42, 0, 0, 0], ByteOrder::LittleEndian, 1, TagType::SRATIONAL),
        ([0, 10, 0, 0, 0, 1, 0, 0, 0, 42], ByteOrder::BigEndian, 1, TagType::SRATIONAL),
    ];
    for (buf, byte_order, count, tag_type) in cases {
        assert_eq!(
            decode_entry(&buf, byte_order, false),
            IfdEntry::Offset { tag_type, count, offset: 42 }
        );
    }
}

#[test]
fn entry_test_notfits_big() {
    let cases: Vec<([u8; 18], ByteOrder, u64, TagType)> = vec![
        ([1, 0, 9, 0, 0, 0, 0, 0, 0, 0, 42, 0, 0, 0, 0, 0, 0, 0], ByteOrder::LittleEndian, 9, TagType::BYTE),
        ([0, 1, 0, 0, 0, 0, 0, 0, 0, 9, 0, 0, 0, 0, 0, 0, 0, 42], ByteOrder::BigEndian, 9, TagType::BYTE),
        ([6, 0, 9, 0, 0, 0, 0, 0, 0, 0, 42, 0, 0, 0, 0, 0, 0, 0], ByteOrder::LittleEndian, 9, TagType::SBYTE),
        ([0, 6, 0, 0, 0, 0, 0, 0, 0, 9, 0, 0, 0, 0, 0, 0, 0, 42], ByteOrder::BigEndian, 9, TagType::SBYTE),
        ([7, 0, 9, 0, 0, 0, 0, 0, 0, 0, 42, 0, 0, 0, 0, 0, 0, 0], ByteOrder::LittleEndian, 9, TagType::UNDEFINED),
        ([0, 7, 0, 0, 0, 0, 0, 0, 0, 9, 0, 0, 0, 0, 0, 0, 0, 42], ByteOrder::BigEndian, 9, TagType::UNDEFINED),
        ([2, 0, 9, 0, 0, 0, 0, 0, 0, 0, 42, 0, 0, 0, 0, 0, 0, 0], ByteOrder::LittleEndian, 9, TagType::ASCII),
        ([0, 2, 0, 0, 0, 0, 0, 0, 0, 9, 0, 0, 0, 0, 0, 0, 0, 42], ByteOrder::BigEndian, 9, TagType::ASCII),
        ([3, 0, 5, 0, 0, 0, 0, 0, 0, 0, 42, 0, 0, 0, 0, 0, 0, 0], ByteOrder::LittleEndian, 5, TagType::SHORT),
        ([0, 3, 0, 0, 0, 0, 0, 0, 0, 5, 0, 0, 0, 0, 0, 0, 0, 42], ByteOrder::BigEndian, 5, TagType::SHORT),
        ([8, 0, 5, 0, 0, 0, 0, 0, 0, 0, 42, 0, 0, 0, 0, 0, 0, 0], ByteOrder::LittleEndian, 5, TagType::SSHORT),
        ([0, 8, 0, 0, 0, 0, 0, 0, 0, 5, 0, 0, 0, 0, 0, 0, 0, 42], ByteOrder::BigEndian, 5, TagType::SSHORT),
        ([4, 0, 3, 0, 0, 0, 0, 0, 0, 0, 42, 0, 0, 0, 0, 0, 0, 0], ByteOrder::LittleEndian, 3, TagType::LONG),
        ([0, 4, 0, 0, 0, 0, 0, 0, 0, 3, 0, 0, 0, 0, 0, 0, 0, 42], ByteOrder::BigEndian, 3, TagType::LONG),
        ([9, 0, 3, 0, 0, 0, 0, 0, 0, 0, 42, 0, 0, 0, 0, 0, 0, 0], ByteOrder::LittleEndian, 3, TagType::SLONG),
        ([0, 9, 0, 0, 0, 0, 0, 0, 0, 3, 0, 0, 0, 0, 0, 0, 0, 42], ByteOrder::BigEndian, 3, TagType::SLONG),
        ([11, 0, 3, 0, 0, 0, 0, 0, 0, 0, 42, 0, 0, 0, 0, 0, 0, 0], ByteOrder::LittleEndian, 3, TagType::FLOAT),
        ([0, 11, 0, 0, 0, 0, 0, 0, 0, 3, 0, 0, 0, 0, 0, 0, 0, 42], ByteOrder::BigEndian, 3, TagType::FLOAT),
        ([12, 0, 2, 0, 0, 0, 0, 0, 0, 0, 42, 0, 0, 0, 0, 0, 0, 0], ByteOrder::LittleEndian, 2, TagType::DOUBLE),
        ([0, 12, 0, 0, 0, 0, 0, 0, 0, 2, 0, 0, 0, 0, 0, 0, 0, 42], ByteOrder::BigEndian, 2, TagType::DOUBLE),
        ([5, 0, 2, 0, 0, 0, 0, 0, 0, 0, 42, 0, 0, 0, 0, 0, 0, 0], ByteOrder::LittleEndian, 2, TagType::RATIONAL),
        ([0, 5, 0, 0, 0, 0, 0, 0, 0, 2, 0, 0, 0, 0, 0, 0, 0, 42], ByteOrder::BigEndian, 2, TagType::RATIONAL),
        ([10, 0, 2, 0, 0, 0, 0, 0, 0, 0, 42, 0, 0, 0, 0, 0, 0, 0], ByteOrder::LittleEndian, 2, TagType::SRATIONAL),
        ([0, 10, 0, 0, 0, 0, 0, 0, 0, 2, 0, 0, 0, 0, 0, 0, 0, 42], ByteOrder::BigEndian, 2, TagType::SRATIONAL),
    ];
    for (buf, byte_order, count, tag_type) in cases {
        assert_eq!(
            decode_entry(&buf, byte_order, true),
            IfdEntry::Offset { tag_type, count, offset: 42 }
        );
    }
}

#[test]
fn test_arcyness() {
    let asdf = std::sync::Arc::new(BufferedEntry {
        tag_type: TagType::BYTE,
        count: 5,
        data: vec![42, 43, 44, 45, 46],
    });
    // element 2 of the byte array [42, 43, 44, 45, 46]
    assert_eq!(asdf.get_u64(2).unwrap(), 44);
}
