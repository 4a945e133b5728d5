//! Concrete decoded forms of a tag's data, and the conversions between them
//! and the raw buffered entries.

use vstd::prelude::*;

use crate::entry::{
    all_ascii, as_signed, entry_wf, trim_nuls, uint_at, uint_elem, BufferedEntry,
};
use crate::error::{TiffError, TiffFormatError, TiffResult, UsageError};
use crate::tags::{tag_type_size, TagType};

verus! {

broadcast use vstd::std_specs::vec::group_vec_axioms;

/// A decoded tag value.
///
/// Floating-point forms carry their IEEE bit patterns; this crate decodes
/// and re-encodes them byte-exactly but never computes on them. Text is
/// seven-bit ASCII without its NUL terminator.
#[derive(Debug)]
pub enum Value {
    Byte(u8),
    SignedByte(i8),
    Undefined(u8),
    Short(u16),
    SShort(i16),
    Long(u32),
    SLong(i32),
    Long8(u64),
    SLong8(i64),
    /// Bit pattern of a single-precision float.
    Float(u32),
    /// Bit pattern of a double-precision float.
    Double(u64),
    Rational(u32, u32),
    SRational(i32, i32),
    Ascii(Vec<u8>),
    List(Vec<Value>),
    Ifd(u32),
    Ifd8(u64),
}

/// The mathematical shape of a decoded value, with sequences in place of
/// vectors.
pub enum ValueView {
    Byte(u8),
    SignedByte(i8),
    Undefined(u8),
    Short(u16),
    SShort(i16),
    Long(u32),
    SLong(i32),
    Long8(u64),
    SLong8(i64),
    Float(u32),
    Double(u64),
    Rational(u32, u32),
    SRational(i32, i32),
    Ascii(Seq<u8>),
    List(Seq<ValueView>),
    Ifd(u32),
    Ifd8(u64),
}

/// The views of a sequence of values, element by element.
pub open spec fn views_of(s: Seq<Value>) -> Seq<ValueView>
    decreases s,
{
    if s.len() == 0 {
        Seq::empty()
    } else {
        views_of(s.drop_last()).push(s.last()@)
    }
}

/// Each element's view stands at its own index.
pub broadcast proof fn lemma_views_of_index(s: Seq<Value>)
    ensures
        #[trigger] views_of(s).len() == s.len(),
        forall|i: int| 0 <= i < s.len() ==> views_of(s)[i] == s[i]@,
    decreases s.len(),
{
    if s.len() == 0 {
        assert(views_of(s) =~= Seq::<ValueView>::empty());
    } else {
        let t = s.drop_last();
        lemma_views_of_index(t);
        assert(views_of(s) == views_of(t).push(s.last()@));
        assert forall|i: int| 0 <= i < s.len() implies views_of(s)[i] == s[i]@ by {
            if i < s.len() - 1 {
                assert(views_of(s)[i] == views_of(t)[i]);
                assert(t[i] == s[i]);
            }
        }
    }
}

impl View for Value {
    type V = ValueView;

    open spec fn view(&self) -> ValueView
        decreases self,
    {
        match self {
            Value::Byte(v) => ValueView::Byte(*v),
            Value::SignedByte(v) => ValueView::SignedByte(*v),
            Value::Undefined(v) => ValueView::Undefined(*v),
            Value::Short(v) => ValueView::Short(*v),
            Value::SShort(v) => ValueView::SShort(*v),
            Value::Long(v) => ValueView::Long(*v),
            Value::SLong(v) => ValueView::SLong(*v),
            Value::Long8(v) => ValueView::Long8(*v),
            Value::SLong8(v) => ValueView::SLong8(*v),
            Value::Float(v) => ValueView::Float(*v),
            Value::Double(v) => ValueView::Double(*v),
            Value::Rational(a, b) => ValueView::Rational(*a, *b),
            Value::SRational(a, b) => ValueView::SRational(*a, *b),
            Value::Ascii(v) => ValueView::Ascii(v@),
            Value::List(vs) => ValueView::List(views_of(vs@)),
            Value::Ifd(v) => ValueView::Ifd(*v),
            Value::Ifd8(v) => ValueView::Ifd8(*v),
        }
    }
}

/// How many scalars a decoded value stands for: the length of a list, one
/// for everything else.
pub open spec fn view_count(v: ValueView) -> nat {
    match v {
        ValueView::List(s) => s.len(),
        _ => 1,
    }
}

/// The on-disk type a single (non-list) decoded value encodes as.
pub open spec fn single_tag_type(v: ValueView) -> TagType {
    match v {
        ValueView::Byte(_) => TagType::BYTE,
        ValueView::SignedByte(_) => TagType::SBYTE,
        ValueView::Undefined(_) => TagType::UNDEFINED,
        ValueView::Short(_) => TagType::SHORT,
        ValueView::SShort(_) => TagType::SSHORT,
        ValueView::Long(_) => TagType::LONG,
        ValueView::SLong(_) => TagType::SLONG,
        ValueView::Long8(_) => TagType::LONG8,
        ValueView::SLong8(_) => TagType::SLONG8,
        ValueView::Float(_) => TagType::FLOAT,
        ValueView::Double(_) => TagType::DOUBLE,
        ValueView::Rational(_, _) => TagType::RATIONAL,
        ValueView::SRational(_, _) => TagType::SRATIONAL,
        ValueView::Ascii(_) => TagType::ASCII,
        ValueView::Ifd(_) => TagType::IFD,
        ValueView::Ifd8(_) => TagType::IFD8,
        ValueView::List(_) => TagType::UNDEFINED,
    }
}

/// The on-disk type of a decoded value; a list that is empty or mixes
/// variants reports `UNDEFINED`.
pub open spec fn spec_tag_type_of(v: ValueView) -> TagType
    decreases v,
{
    match v {
        ValueView::List(s) => if s.len() == 0 {
            TagType::UNDEFINED
        } else {
            list_tag_type(s)
        },
        _ => single_tag_type(v),
    }
}

/// The common type of a non-empty list's elements, folding left to right;
/// any disagreement yields `UNDEFINED`.
pub open spec fn list_tag_type(s: Seq<ValueView>) -> TagType
    recommends
        s.len() > 0,
    decreases s,
{
    if s.len() == 0 {
        TagType::UNDEFINED
    } else if s.len() == 1 {
        spec_tag_type_of(s[0])
    } else {
        let prefix = list_tag_type(s.drop_last());
        if prefix == spec_tag_type_of(s.last()) {
            prefix
        } else {
            TagType::UNDEFINED
        }
    }
}

/// A non-empty list whose elements all report the type of its first element
/// folds to that type; any disagreement folds to `UNDEFINED`.
proof fn lemma_list_tag_type(s: Seq<ValueView>)
    requires
        s.len() > 0,
    ensures
        (forall|i: int|
            0 <= i < s.len() ==> #[trigger] spec_tag_type_of(s[i]) == spec_tag_type_of(s[0]))
            ==> list_tag_type(s) == spec_tag_type_of(s[0]),
        !(forall|i: int|
            0 <= i < s.len() ==> #[trigger] spec_tag_type_of(s[i]) == spec_tag_type_of(s[0]))
            ==> list_tag_type(s) == TagType::UNDEFINED,
    decreases s.len(),
{
    if s.len() == 1 {
        assert forall|i: int|
            0 <= i < s.len() implies #[trigger] spec_tag_type_of(s[i]) == spec_tag_type_of(
            s[0],
        ) by {
            assert(i == 0);
        }
    } else {
        let t = s.drop_last();
        lemma_list_tag_type(t);
        assert(t[0] == s[0]);
        assert(s.last() == s[s.len() - 1]);
        if forall|i: int|
            0 <= i < s.len() ==> #[trigger] spec_tag_type_of(s[i]) == spec_tag_type_of(s[0]) {
            assert forall|i: int|
                0 <= i < t.len() implies #[trigger] spec_tag_type_of(t[i]) == spec_tag_type_of(
                t[0],
            ) by {
                assert(t[i] == s[i]);
                assert(spec_tag_type_of(s[i]) == spec_tag_type_of(s[0]));
            }
            assert(list_tag_type(t) == spec_tag_type_of(s[0]));
            assert(spec_tag_type_of(s[s.len() - 1]) == spec_tag_type_of(s[0]));
        } else {
            let bad = choose|i: int|
                0 <= i < s.len() && #[trigger] spec_tag_type_of(s[i]) != spec_tag_type_of(s[0]);
            if bad < s.len() - 1 {
                assert(t[bad] == s[bad]);
                assert(spec_tag_type_of(t[bad]) != spec_tag_type_of(t[0]));
                assert(!(forall|i: int|
                    0 <= i < t.len() ==> #[trigger] spec_tag_type_of(t[i]) == spec_tag_type_of(
                        t[0],
                    )));
                assert(list_tag_type(t) == TagType::UNDEFINED);
            } else {
                if forall|i: int|
                    0 <= i < t.len() ==> #[trigger] spec_tag_type_of(t[i]) == spec_tag_type_of(
                        t[0],
                    ) {
                    assert(list_tag_type(t) == spec_tag_type_of(s[0]));
                    assert(spec_tag_type_of(s.last()) != spec_tag_type_of(s[0]));
                } else {
                    assert(list_tag_type(t) == TagType::UNDEFINED);
                }
            }
        }
    }
}

/// The decoded form of the `i`-th element of a buffer of type `t`; only
/// meaningful for the scalar types a list may hold.
pub open spec fn single_view(t: TagType, data: Seq<u8>, i: int) -> ValueView {
    match t {
        TagType::BYTE => ValueView::Byte(uint_elem(data, 1, i) as u8),
        TagType::SBYTE => ValueView::SignedByte(as_signed(uint_elem(data, 1, i), 1) as i8),
        TagType::UNDEFINED => ValueView::Undefined(uint_elem(data, 1, i) as u8),
        TagType::SHORT => ValueView::Short(uint_elem(data, 2, i) as u16),
        TagType::SSHORT => ValueView::SShort(as_signed(uint_elem(data, 2, i), 2) as i16),
        TagType::LONG => ValueView::Long(uint_elem(data, 4, i) as u32),
        TagType::SLONG => ValueView::SLong(as_signed(uint_elem(data, 4, i), 4) as i32),
        TagType::LONG8 => ValueView::Long8(uint_elem(data, 8, i)),
        TagType::SLONG8 => ValueView::SLong8(as_signed(uint_elem(data, 8, i), 8) as i64),
        TagType::FLOAT => ValueView::Float(uint_elem(data, 4, i) as u32),
        TagType::DOUBLE => ValueView::Double(uint_elem(data, 8, i)),
        TagType::RATIONAL => ValueView::Rational(
            uint_elem(data, 4, 2 * i) as u32,
            uint_elem(data, 4, 2 * i + 1) as u32,
        ),
        TagType::SRATIONAL => ValueView::SRational(
            as_signed(uint_elem(data, 4, 2 * i), 4) as i32,
            as_signed(uint_elem(data, 4, 2 * i + 1), 4) as i32,
        ),
        TagType::ASCII => ValueView::Ascii(Seq::empty()),
        TagType::IFD => ValueView::Ifd(uint_elem(data, 4, i) as u32),
        TagType::IFD8 => ValueView::Ifd8(uint_elem(data, 8, i)),
    }
}

/// The decoded form of one element: an ASCII element decodes only as the
/// empty text with a NUL byte, and a directory reference never decodes as a
/// value at all.
pub open spec fn spec_decode_single(t: TagType, data: Seq<u8>, i: int) -> Result<
    ValueView,
    TiffError,
> {
    match t {
        TagType::ASCII => if data[i] == 0 {
            Ok(ValueView::Ascii(Seq::empty()))
        } else {
            Err(TiffError::FormatError(TiffFormatError::InvalidTag))
        },
        TagType::IFD => Err(TiffError::UsageError(UsageError::IfdReadIntoEntry)),
        TagType::IFD8 => Err(TiffError::UsageError(UsageError::IfdReadIntoEntry)),
        _ => Ok(single_view(t, data, i)),
    }
}

/// Decode the `i`-th element of a buffer as a single concrete value.
fn decode_single(tag_type: TagType, data: &Vec<u8>, i: usize) -> (r: TiffResult<Value>)
    requires
        (i + 1) * tag_type_size(tag_type) <= data@.len(),
    ensures
        match spec_decode_single(tag_type, data@, i as int) {
            Ok(view) => r matches Ok(v) && v@ == view,
            Err(e) => r == Err::<Value, TiffError>(e),
        },
{
    let n: usize = data.len();
    proof {
        assert((i + 1) * tag_type_size(tag_type) >= i + 1) by (nonlinear_arith)
            requires
                tag_type_size(tag_type) >= 1,
                i >= 0,
        ;
    }
    match tag_type {
        TagType::BYTE => Ok(Value::Byte(uint_at(data, 1, i) as u8)),
        TagType::UNDEFINED => Ok(Value::Undefined(uint_at(data, 1, i) as u8)),
        TagType::SBYTE => {
            let u = uint_at(data, 1, i);
            let v: i8 = if u < 0x80 {
                u as i8
            } else {
                (u as i16 - 0x100) as i8
            };
            Ok(Value::SignedByte(v))
        },
        TagType::SHORT => Ok(Value::Short(uint_at(data, 2, i) as u16)),
        TagType::SSHORT => {
            let u = uint_at(data, 2, i);
            let v: i16 = if u < 0x8000 {
                u as i16
            } else {
                (u as i32 - 0x1_0000) as i16
            };
            Ok(Value::SShort(v))
        },
        TagType::LONG => Ok(Value::Long(uint_at(data, 4, i) as u32)),
        TagType::SLONG => {
            let u = uint_at(data, 4, i);
            let v: i32 = if u < 0x8000_0000 {
                u as i32
            } else {
                (u as i64 - 0x1_0000_0000) as i32
            };
            Ok(Value::SLong(v))
        },
        TagType::LONG8 => Ok(Value::Long8(uint_at(data, 8, i))),
        TagType::SLONG8 => {
            let u = uint_at(data, 8, i);
            let v: i64 = if u < 0x8000_0000_0000_0000 {
                u as i64
            } else {
                ((u as i128) - 0x1_0000_0000_0000_0000i128) as i64
            };
            Ok(Value::SLong8(v))
        },
        TagType::FLOAT => Ok(Value::Float(uint_at(data, 4, i) as u32)),
        TagType::DOUBLE => Ok(Value::Double(uint_at(data, 8, i))),
        TagType::RATIONAL => {
            proof {
                assert((2 * i + 2) * 4 == (i + 1) * 8) by (nonlinear_arith);
                assert((i + 1) * 8 <= n);
                assert(2 * i + 2 <= n);
            }
            let a = uint_at(data, 4, 2 * i) as u32;
            let b = uint_at(data, 4, 2 * i + 1) as u32;
            Ok(Value::Rational(a, b))
        },
        TagType::SRATIONAL => {
            proof {
                assert((2 * i + 2) * 4 == (i + 1) * 8) by (nonlinear_arith);
                assert((i + 1) * 8 <= n);
                assert(2 * i + 2 <= n);
            }
            let ua = uint_at(data, 4, 2 * i);
            let ub = uint_at(data, 4, 2 * i + 1);
            let a: i32 = if ua < 0x8000_0000 {
                ua as i32
            } else {
                (ua as i64 - 0x1_0000_0000) as i32
            };
            let b: i32 = if ub < 0x8000_0000 {
                ub as i32
            } else {
                (ub as i64 - 0x1_0000_0000) as i32
            };
            Ok(Value::SRational(a, b))
        },
        TagType::ASCII => {
            if data[i] == 0 {
                Ok(Value::Ascii(Vec::new()))
            } else {
                Err(TiffError::FormatError(TiffFormatError::InvalidTag))
            }
        },
        TagType::IFD => Err(TiffError::UsageError(UsageError::IfdReadIntoEntry)),
        TagType::IFD8 => Err(TiffError::UsageError(UsageError::IfdReadIntoEntry)),
    }
}

/// The decoded form of a whole buffered entry: one element decodes to its
/// scalar, several ASCII bytes decode to one text, and several elements of
/// any other type decode element-wise to a list. A directory reference of
/// any count never decodes as a value.
pub open spec fn spec_value_of_entry(e: BufferedEntry) -> Result<ValueView, TiffError> {
    let w = tag_type_size(e.tag_type);
    if e.data@.len() != e.count * w {
        Err(TiffError::FormatError(TiffFormatError::InconsistentSizesEncountered(e.spec_summary())))
    } else if e.count == 1 {
        spec_decode_single(e.tag_type, e.data@, 0)
    } else if e.tag_type == TagType::ASCII {
        if all_ascii(e.data@) && e.data@.len() > 0 && e.data@[e.data@.len() - 1] == 0 {
            Ok(ValueView::Ascii(trim_nuls(e.data@)))
        } else {
            Err(TiffError::FormatError(TiffFormatError::InvalidTag))
        }
    } else if e.tag_type == TagType::IFD || e.tag_type == TagType::IFD8 {
        Err(TiffError::UsageError(UsageError::IfdReadIntoEntry))
    } else {
        Ok(ValueView::List(Seq::new(e.count as nat, |j: int| single_view(e.tag_type, e.data@, j))))
    }
}

/// Exclusive upper bound of an unsigned integer of width `w`.
pub open spec fn uint_bound(w: nat) -> int {
    if w == 1 {
        0x100
    } else if w == 2 {
        0x1_0000
    } else if w == 4 {
        0x1_0000_0000
    } else {
        0x1_0000_0000_0000_0000
    }
}

/// The base-256 digits of a four-byte value sum back to the value.
proof fn lemma_base256_expand_4(x: u64)
    requires
        x < 0x1_0000_0000,
    ensures
        (x % 0x100) + 0x100 * ((x / 0x100) % 0x100) + 0x1_0000 * ((x / 0x1_0000) % 0x100)
            + 0x100_0000 * ((x / 0x100_0000) % 0x100) == x,
{
    assert((x % 0x100) + 0x100 * ((x / 0x100) % 0x100) + 0x1_0000 * ((x / 0x1_0000) % 0x100)
        + 0x100_0000 * ((x / 0x100_0000) % 0x100) == x) by (bit_vector)
        requires
            x < 0x1_0000_0000,
    ;
}

/// The base-256 digits of an eight-byte value sum back to the value.
proof fn lemma_base256_expand_8(x: u64)
    ensures
        (x % 0x100) + 0x100 * ((x / 0x100) % 0x100) + 0x1_0000 * ((x / 0x1_0000) % 0x100)
            + 0x100_0000 * ((x / 0x100_0000) % 0x100) + 0x1_0000_0000 * ((x / 0x1_0000_0000)
            % 0x100) + 0x100_0000_0000 * ((x / 0x100_0000_0000) % 0x100) + 0x1_0000_0000_0000 * ((x
            / 0x1_0000_0000_0000) % 0x100) + 0x100_0000_0000_0000 * ((x / 0x100_0000_0000_0000)
            % 0x100) == x,
{
    assert((x % 0x100) + 0x100 * ((x / 0x100) % 0x100) + 0x1_0000 * ((x / 0x1_0000) % 0x100)
        + 0x100_0000 * ((x / 0x100_0000) % 0x100) + 0x1_0000_0000 * ((x / 0x1_0000_0000) % 0x100)
        + 0x100_0000_0000 * ((x / 0x100_0000_0000) % 0x100) + 0x1_0000_0000_0000 * ((x
        / 0x1_0000_0000_0000) % 0x100) + 0x100_0000_0000_0000 * ((x / 0x100_0000_0000_0000)
        % 0x100) == x) by (bit_vector);
}

/// Append the `w` canonical-order bytes of `x` to `out`.
fn push_uint(out: &mut Vec<u8>, x: u64, w: usize)
    requires
        w == 1 || w == 2 || w == 4 || w == 8,
        x < uint_bound(w as nat),
    ensures
        final(out)@.len() == old(out)@.len() + w,
        final(out)@.subrange(0, old(out)@.len() as int) == old(out)@,
        uint_elem(
            final(out)@.subrange(old(out)@.len() as int, final(out)@.len() as int),
            w as nat,
            0,
        ) == x,
{
    let ghost base = out@.len() as int;
    if w == 1 {
        out.push(x as u8);
        proof {
            assert(out@.subrange(0, base) =~= old(out)@);
            assert(out@.subrange(base, base + 1) =~= seq![x as u8]);
        }
    } else if w == 2 {
        out.push((x % 0x100) as u8);
        out.push(((x / 0x100) % 0x100) as u8);
        proof {
            assert(out@.subrange(0, base) =~= old(out)@);
            assert(out@.subrange(base, base + 2) =~= seq![
                (x % 0x100) as u8,
                ((x / 0x100) % 0x100) as u8,
            ]);
            assert(x / 0x100 < 0x100);
        }
    } else if w == 4 {
        out.push((x % 0x100) as u8);
        out.push(((x / 0x100) % 0x100) as u8);
        out.push(((x / 0x1_0000) % 0x100) as u8);
        out.push(((x / 0x100_0000) % 0x100) as u8);
        proof {
            assert(out@.subrange(0, base) =~= old(out)@);
            assert(out@.subrange(base, base + 4) =~= seq![
                (x % 0x100) as u8,
                ((x / 0x100) % 0x100) as u8,
                ((x / 0x1_0000) % 0x100) as u8,
                ((x / 0x100_0000) % 0x100) as u8,
            ]);
            lemma_base256_expand_4(x);
        }
    } else {
        out.push((x % 0x100) as u8);
        out.push(((x / 0x100) % 0x100) as u8);
        out.push(((x / 0x1_0000) % 0x100) as u8);
        out.push(((x / 0x100_0000) % 0x100) as u8);
        out.push(((x / 0x1_0000_0000) % 0x100) as u8);
        out.push(((x / 0x100_0000_0000) % 0x100) as u8);
        out.push(((x / 0x1_0000_0000_0000) % 0x100) as u8);
        out.push(((x / 0x100_0000_0000_0000) % 0x100) as u8);
        proof {
            assert(out@.subrange(0, base) =~= old(out)@);
            assert(out@.subrange(base, base + 8) =~= seq![
                (x % 0x100) as u8,
                ((x / 0x100) % 0x100) as u8,
                ((x / 0x1_0000) % 0x100) as u8,
                ((x / 0x100_0000) % 0x100) as u8,
                ((x / 0x1_0000_0000) % 0x100) as u8,
                ((x / 0x100_0000_0000) % 0x100) as u8,
                ((x / 0x1_0000_0000_0000) % 0x100) as u8,
                ((x / 0x100_0000_0000_0000) % 0x100) as u8,
            ]);
            lemma_base256_expand_8(x);
        }
    }
}

/// Whether one value, encoded as a buffered entry, yields exactly the given
/// type, element count and canonical bytes.
pub open spec fn encodes(v: ValueView, t: TagType, count: int, data: Seq<u8>) -> bool
    decreases v,
{
    match v {
        ValueView::Byte(x) => t == TagType::BYTE && count == 1 && data.len() == 1 && uint_elem(
            data,
            1,
            0,
        ) == x,
        ValueView::SignedByte(x) => t == TagType::SBYTE && count == 1 && data.len() == 1
            && as_signed(uint_elem(data, 1, 0), 1) == x,
        ValueView::Undefined(x) => t == TagType::UNDEFINED && count == 1 && data.len() == 1
            && uint_elem(data, 1, 0) == x,
        ValueView::Short(x) => t == TagType::SHORT && count == 1 && data.len() == 2 && uint_elem(
            data,
            2,
            0,
        ) == x,
        ValueView::SShort(x) => t == TagType::SSHORT && count == 1 && data.len() == 2 && as_signed(
            uint_elem(data, 2, 0),
            2,
        ) == x,
        ValueView::Long(x) => t == TagType::LONG && count == 1 && data.len() == 4 && uint_elem(
            data,
            4,
            0,
        ) == x,
        ValueView::SLong(x) => t == TagType::SLONG && count == 1 && data.len() == 4 && as_signed(
            uint_elem(data, 4, 0),
            4,
        ) == x,
        ValueView::Long8(x) => t == TagType::LONG8 && count == 1 && data.len() == 8 && uint_elem(
            data,
            8,
            0,
        ) == x,
        ValueView::SLong8(x) => t == TagType::SLONG8 && count == 1 && data.len() == 8 && as_signed(
            uint_elem(data, 8, 0),
            8,
        ) == x,
        ValueView::Float(x) => t == TagType::FLOAT && count == 1 && data.len() == 4 && uint_elem(
            data,
            4,
            0,
        ) == x,
        ValueView::Double(x) => t == TagType::DOUBLE && count == 1 && data.len() == 8 && uint_elem(
            data,
            8,
            0,
        ) == x,
        ValueView::Rational(a, b) => t == TagType::RATIONAL && count == 1 && data.len() == 8
            && uint_elem(data, 4, 0) == a && uint_elem(data, 4, 1) == b,
        ValueView::SRational(a, b) => t == TagType::SRATIONAL && count == 1 && data.len() == 8
            && as_signed(uint_elem(data, 4, 0), 4) == a && as_signed(uint_elem(data, 4, 1), 4)
            == b,
        ValueView::Ifd(x) => t == TagType::IFD && count == 1 && data.len() == 4 && uint_elem(
            data,
            4,
            0,
        ) == x,
        ValueView::Ifd8(x) => t == TagType::IFD8 && count == 1 && data.len() == 8 && uint_elem(
            data,
            8,
            0,
        ) == x,
        ValueView::Ascii(s) => t == TagType::ASCII && count == s.len() + 1 && data == s.push(0u8),
        ValueView::List(items) => list_encodes(items, t, count, data),
    }
}

/// How many on-disk elements a value contributes when encoded: text adds
/// one per byte plus its terminator, a list the sum of its elements.
pub open spec fn encoded_count(v: ValueView) -> int
    decreases v,
{
    match v {
        ValueView::Ascii(s) => s.len() as int + 1,
        ValueView::List(items) => list_encoded_count(items),
        _ => 1,
    }
}

/// The element count a run of values contributes when encoded.
pub open spec fn list_encoded_count(items: Seq<ValueView>) -> int
    decreases items,
{
    if items.len() == 0 {
        0
    } else {
        list_encoded_count(items.drop_last()) + encoded_count(items.last())
    }
}

/// Whether a non-empty run of values encodes, left to right and all under
/// one type, as the given count and concatenated bytes; the last element's
/// bytes are the tail of `data`, sized by its own element count.
pub open spec fn list_encodes(items: Seq<ValueView>, t: TagType, count: int, data: Seq<u8>) -> bool
    decreases items,
{
    if items.len() == 0 {
        false
    } else if items.len() == 1 {
        encodes(items[0], t, count, data)
    } else {
        let c2 = encoded_count(items.last());
        let split = data.len() - c2 * tag_type_size(t);
        &&& 0 <= split <= data.len()
        &&& list_encodes(items.drop_last(), t, count - c2, data.subrange(0, split))
        &&& encodes(items.last(), t, c2, data.subrange(split, data.len() as int))
    }
}

/// An encoded value is well formed: at least one element, a count equal to
/// its contribution, and bytes exactly filling `count` elements.
pub proof fn lemma_encodes_wf(v: ValueView, t: TagType, count: int, data: Seq<u8>)
    requires
        encodes(v, t, count, data),
    ensures
        count >= 1,
        count == encoded_count(v),
        data.len() == count * tag_type_size(t),
    decreases v,
{
    match v {
        ValueView::List(items) => {
            lemma_list_encodes_wf(items, t, count, data);
        },
        _ => {},
    }
}

/// The well-formedness of an encoded run, by induction on its length.
pub proof fn lemma_list_encodes_wf(items: Seq<ValueView>, t: TagType, count: int, data: Seq<u8>)
    requires
        list_encodes(items, t, count, data),
    ensures
        count >= 1,
        count == list_encoded_count(items),
        data.len() == count * tag_type_size(t),
    decreases items,
{
    if items.len() == 1 {
        lemma_encodes_wf(items[0], t, count, data);
        assert(list_encoded_count(items.drop_last()) == 0);
    } else {
        let c2 = encoded_count(items.last());
        let split = data.len() - c2 * tag_type_size(t);
        lemma_list_encodes_wf(items.drop_last(), t, count - c2, data.subrange(0, split));
        lemma_encodes_wf(items.last(), t, c2, data.subrange(split, data.len() as int));
        assert((count - c2) * tag_type_size(t) + c2 * tag_type_size(t) == count * tag_type_size(
            t,
        )) by (nonlinear_arith);
    }
}

/// Whether a decoded value is a plain scalar: neither text nor a list.
pub open spec fn plain_scalar(v: ValueView) -> bool {
    match v {
        ValueView::Ascii(_) => false,
        ValueView::List(_) => false,
        _ => true,
    }
}

/// A run of plain (non-text, non-list) scalars.
pub open spec fn all_plain(items: Seq<ValueView>) -> bool {
    forall|j: int| #![trigger items[j]] 0 <= j < items.len() ==> plain_scalar(items[j])
}

/// Whether a run of values consists of plain scalars that all share the
/// first element's type.
pub open spec fn homogeneous_plain(items: Seq<ValueView>) -> bool {
    forall|i: int|
        0 <= i < items.len() ==> #[trigger] plain_scalar(items[i]) && single_tag_type(items[i])
            == single_tag_type(items[0])
}

/// A one-element buffered entry of the given type holding the `w`-byte
/// value `x`.
fn scalar_entry(t: TagType, x: u64, w: usize) -> (e: BufferedEntry)
    requires
        w == 1 || w == 2 || w == 4 || w == 8,
        x < uint_bound(w as nat),
    ensures
        e.tag_type == t,
        e.count == 1,
        e.data@.len() == w,
        uint_elem(e.data@, w as nat, 0) == x,
{
    let mut data: Vec<u8> = Vec::new();
    push_uint(&mut data, x, w);
    proof {
        assert(data@.subrange(0, w as int) =~= data@);
    }
    BufferedEntry { tag_type: t, count: 1, data }
}

impl Value {
    /// Decode a whole buffered entry into its concrete value.
    pub fn from_entry(e: &BufferedEntry) -> (r: TiffResult<Value>)
        ensures
            match spec_value_of_entry(*e) {
                Ok(view) => r matches Ok(v) && v@ == view,
                Err(err) => r == Err::<Value, TiffError>(err),
            },
    {
        let w = e.tag_type.size();
        let byte_len: u128 = (e.count as u128) * (w as u128);
        let dl: usize = e.data.len();
        if dl as u128 != byte_len {
            return Err(TiffError::FormatError(TiffFormatError::InconsistentSizesEncountered(
                e.summary(),
            )));
        }
        proof {
            assert(e.count <= dl) by (nonlinear_arith)
                requires
                    dl == e.count * tag_type_size(e.tag_type),
                    tag_type_size(e.tag_type) >= 1,
                    e.count >= 0,
            ;
        }
        if e.count == 1 {
            return decode_single(e.tag_type, &e.data, 0);
        }
        match e.tag_type {
            TagType::ASCII => {
                match e.try_to_ascii() {
                    Ok(text) => Ok(Value::Ascii(text)),
                    Err(err) => Err(err),
                }
            },
            TagType::IFD | TagType::IFD8 => Err(
                TiffError::UsageError(UsageError::IfdReadIntoEntry),
            ),
            _ => {
                let cnt = e.count as usize;
                let mut out: Vec<Value> = Vec::new();
                let mut j: usize = 0;
                while j < cnt
                    invariant
                        j <= cnt,
                        cnt == e.count,
                        cnt * tag_type_size(e.tag_type) == e.data@.len(),
                        !(e.tag_type == TagType::ASCII) && !(e.tag_type == TagType::IFD) && !(
                        e.tag_type == TagType::IFD8),
                        out@.len() == j,
                        forall|k: int|
                            0 <= k < j ==> views_of(out@)[k] == single_view(
                                e.tag_type,
                                e.data@,
                                k,
                            ),
                    decreases cnt - j,
                {
                    proof {
                        assert((j + 1) * tag_type_size(e.tag_type) <= cnt * tag_type_size(
                            e.tag_type,
                        )) by (nonlinear_arith)
                            requires
                                j < cnt,
                                tag_type_size(e.tag_type) >= 1,
                        ;
                        lemma_views_of_index(out@);
                    }
                    match decode_single(e.tag_type, &e.data, j) {
                        Ok(v) => {
                            let ghost old_out = out@;
                            out.push(v);
                            proof {
                                lemma_views_of_index(old_out);
                                lemma_views_of_index(out@);
                                assert(out@.drop_last() =~= old_out);
                            }
                        },
                        Err(err) => {
                            return Err(err);
                        },
                    }
                    j = j + 1;
                }
                proof {
                    lemma_views_of_index(out@);
                    assert(views_of(out@) =~= Seq::new(
                        e.count as nat,
                        |k: int| single_view(e.tag_type, e.data@, k),
                    ));
                }
                Ok(Value::List(out))
            },
        }
    }

    /// Encode this value as a buffered entry in canonical byte order.
    ///
    /// A list must be non-empty and its elements must all encode under one
    /// type; text longer than the count field can express is rejected.
    pub fn to_entry(&self) -> (r: TiffResult<BufferedEntry>)
        ensures
            r matches Ok(e) ==> encodes(self@, e.tag_type, e.count as int, e.data@),
            plain_scalar(self@) ==> r is Ok,
            (self@ matches ValueView::Ascii(s) && s.len() < u64::MAX) ==> r is Ok,
            (self@ matches ValueView::List(items) && items.len() == 0) ==> r == Err::<
                BufferedEntry,
                TiffError,
            >(TiffError::FormatError(TiffFormatError::InvalidTag)),
            (self@ matches ValueView::List(items) && items.len() > 0 && homogeneous_plain(items))
                ==> r is Ok,
            (self@ matches ValueView::List(items) && items.len() > 0 && all_plain(items) && !(
            forall|j: int|
                #![trigger items[j]]
                0 <= j < items.len() ==> single_tag_type(items[j]) == single_tag_type(items[0])))
                ==> r == Err::<BufferedEntry, TiffError>(
                TiffError::FormatError(TiffFormatError::InvalidTag),
            ),
        decreases self,
    {
        match self {
            Value::Byte(v) => Ok(scalar_entry(TagType::BYTE, *v as u64, 1)),
            Value::Undefined(v) => Ok(scalar_entry(TagType::UNDEFINED, *v as u64, 1)),
            Value::Short(v) => Ok(scalar_entry(TagType::SHORT, *v as u64, 2)),
            Value::Long(v) => Ok(scalar_entry(TagType::LONG, *v as u64, 4)),
            Value::Ifd(v) => Ok(scalar_entry(TagType::IFD, *v as u64, 4)),
            Value::Long8(v) => Ok(scalar_entry(TagType::LONG8, *v, 8)),
            Value::Ifd8(v) => Ok(scalar_entry(TagType::IFD8, *v, 8)),
            Value::Float(v) => Ok(scalar_entry(TagType::FLOAT, *v as u64, 4)),
            Value::Double(v) => Ok(scalar_entry(TagType::DOUBLE, *v, 8)),
            Value::SignedByte(v) => {
                let u: u64 = if *v >= 0 {
                    *v as u64
                } else {
                    (*v as i16 + 0x100) as u64
                };
                Ok(scalar_entry(TagType::SBYTE, u, 1))
            },
            Value::SShort(v) => {
                let u: u64 = if *v >= 0 {
                    *v as u64
                } else {
                    (*v as i32 + 0x1_0000) as u64
                };
                Ok(scalar_entry(TagType::SSHORT, u, 2))
            },
            Value::SLong(v) => {
                let u: u64 = if *v >= 0 {
                    *v as u64
                } else {
                    (*v as i64 + 0x1_0000_0000) as u64
                };
                Ok(scalar_entry(TagType::SLONG, u, 4))
            },
            Value::SLong8(v) => {
                let u: u64 = if *v >= 0 {
                    *v as u64
                } else {
                    ((*v as i128) + 0x1_0000_0000_0000_0000i128) as u64
                };
                Ok(scalar_entry(TagType::SLONG8, u, 8))
            },
            Value::Rational(a, b) => {
                let mut data: Vec<u8> = Vec::new();
                push_uint(&mut data, *a as u64, 4);
                let ghost mid = data@;
                push_uint(&mut data, *b as u64, 4);
                proof {
                    assert(data@.subrange(0, 4) =~= mid.subrange(0, 4));
                    assert(data@.subrange(4, 8) == data@.subrange(4int, data@.len() as int));
                }
                Ok(BufferedEntry { tag_type: TagType::RATIONAL, count: 1, data })
            },
            Value::SRational(a, b) => {
                let ua: u64 = if *a >= 0 {
                    *a as u64
                } else {
                    (*a as i64 + 0x1_0000_0000) as u64
                };
                let ub: u64 = if *b >= 0 {
                    *b as u64
                } else {
                    (*b as i64 + 0x1_0000_0000) as u64
                };
                let mut data: Vec<u8> = Vec::new();
                push_uint(&mut data, ua, 4);
                let ghost mid = data@;
                push_uint(&mut data, ub, 4);
                proof {
                    assert(data@.subrange(0, 4) =~= mid.subrange(0, 4));
                    assert(data@.subrange(4, 8) == data@.subrange(4int, data@.len() as int));
                }
                Ok(BufferedEntry { tag_type: TagType::SRATIONAL, count: 1, data })
            },
            Value::Ascii(v) => {
                if v.len() as u64 == u64::MAX {
                    return Err(TiffError::IntSizeError);
                }
                let mut data = v.clone();
                proof {
                    assert(data@ =~= v@);
                }
                data.push(0u8);
                Ok(BufferedEntry { tag_type: TagType::ASCII, count: v.len() as u64 + 1, data })
            },
            Value::List(vs) => {
                let n = vs.len();
                if n == 0 {
                    return Err(TiffError::FormatError(TiffFormatError::InvalidTag));
                }
                proof {
                    lemma_views_of_index(vs@);
                    assert(decreases_to!(*self => (*self)->List_0));
                    assert(decreases_to!((*self)->List_0 => (*self)->List_0@));
                    assert(decreases_to!((*self)->List_0@ => (*self)->List_0@[0int]));
                    assert((*self)->List_0@[0int] == vs@[0int]);
                    assert(decreases_to!(*self => vs@[0int]));
                    if all_plain(views_of(vs@)) {
                        assert(plain_scalar(views_of(vs@)[0int]));
                        assert(views_of(vs@)[0int] == vs@[0int]@);
                    }
                }
                let mut acc = match vs[0].to_entry() {
                    Ok(e) => e,
                    Err(err) => {
                        return Err(err);
                    },
                };
                proof {
                    let views = views_of(vs@);
                    assert(views.subrange(0, 1)[0] == views[0]);
                    assert(views.subrange(0, 1).len() == 1);
                    if all_plain(views) {
                        assert(plain_scalar(views[0]));
                        assert(views[0] == vs@[0int]@);
                        assert(encodes(vs@[0int]@, acc.tag_type, acc.count as int, acc.data@));
                    }
                }
                let mut i: usize = 1;
                while i < n
                    invariant
                        *self matches Value::List(lvs) && lvs@ == vs@,
                        1 <= i <= n,
                        n == vs@.len(),
                        list_encodes(
                            views_of(vs@).subrange(0, i as int),
                            acc.tag_type,
                            acc.count as int,
                            acc.data@,
                        ),
                        all_plain(views_of(vs@)) ==> acc.tag_type == single_tag_type(
                            views_of(vs@)[0],
                        ) && acc.count == i && (forall|j: int|
                            #![trigger views_of(vs@)[j]]
                            0 <= j < i ==> single_tag_type(views_of(vs@)[j]) == single_tag_type(
                                views_of(vs@)[0],
                            )),
                    decreases n - i,
                {
                    proof {
                        lemma_views_of_index(vs@);
                        assert(decreases_to!(*self => (*self)->List_0));
                        assert(decreases_to!((*self)->List_0 => (*self)->List_0@));
                        assert(decreases_to!((*self)->List_0@ => (*self)->List_0@[i as int]));
                        assert((*self)->List_0@[i as int] == vs@[i as int]);
                        assert(decreases_to!(*self => vs@[i as int]));
                        if all_plain(views_of(vs@)) {
                            assert(plain_scalar(views_of(vs@)[i as int]));
                            assert(views_of(vs@)[i as int] == vs@[i as int]@);
                        }
                    }
                    let mut temp = match vs[i].to_entry() {
                        Ok(e) => e,
                        Err(err) => {
                            return Err(err);
                        },
                    };
                    if !(temp.tag_type == acc.tag_type) {
                        proof {
                            if all_plain(views_of(vs@)) {
                                assert(encodes(
                                    vs@[i as int]@,
                                    temp.tag_type,
                                    temp.count as int,
                                    temp.data@,
                                ));
                                assert(temp.tag_type == single_tag_type(vs@[i as int]@));
                            }
                        }
                        return Err(TiffError::FormatError(TiffFormatError::InvalidTag));
                    }
                    if acc.count > u64::MAX - temp.count {
                        proof {
                            if all_plain(views_of(vs@)) {
                                assert(encodes(
                                    vs@[i as int]@,
                                    temp.tag_type,
                                    temp.count as int,
                                    temp.data@,
                                ));
                            }
                        }
                        return Err(TiffError::IntSizeError);
                    }
                    let ghost old_acc = acc;
                    let ghost old_temp = temp;
                    acc.count = acc.count + temp.count;
                    acc.data.append(&mut temp.data);
                    proof {
                        lemma_views_of_index(vs@);
                        let views = views_of(vs@);
                        let prev = views.subrange(0, i as int);
                        let cur = views.subrange(0, i + 1);
                        let elem = views[i as int];
                        assert(elem == vs@[i as int]@);
                        assert(encodes(elem, old_temp.tag_type, old_temp.count as int, old_temp.data@));
                        lemma_encodes_wf(elem, old_temp.tag_type, old_temp.count as int, old_temp.data@);
                        lemma_list_encodes_wf(prev, old_acc.tag_type, old_acc.count as int, old_acc.data@);
                        assert(cur.last() == elem);
                        assert(cur.drop_last() =~= prev);
                        let c2 = encoded_count(elem);
                        let split = acc.data@.len() - c2 * tag_type_size(acc.tag_type);
                        assert(split == old_acc.data@.len());
                        assert(acc.data@.subrange(0, split) =~= old_acc.data@);
                        assert(acc.data@.subrange(split, acc.data@.len() as int) =~= old_temp.data@);
                        assert(list_encodes(cur, acc.tag_type, acc.count as int, acc.data@));
                        if all_plain(views) {
                            assert(encodes(
                                elem,
                                old_temp.tag_type,
                                old_temp.count as int,
                                old_temp.data@,
                            ));
                            assert(plain_scalar(elem));
                            assert(old_temp.tag_type == single_tag_type(elem));
                        }
                    }
                    i = i + 1;
                }
                proof {
                    assert(views_of(vs@).subrange(0, n as int) =~= views_of(vs@));
                }
                Ok(acc)
            },
        }
    }

    /// How many scalars this value stands for.
    pub fn count(&self) -> (r: usize)
        ensures
            r == view_count(self@),
    {
        match self {
            Value::List(v) => {
                proof {
                    lemma_views_of_index(v@);
                }
                v.len()
            },
            _ => 1,
        }
    }

    /// The on-disk type this value encodes as.
    ///
    /// Returns `UNDEFINED` for an `Undefined` scalar, an empty list, and a
    /// list whose elements do not share one type.
    pub fn tag_type(&self) -> (r: TagType)
        ensures
            r == spec_tag_type_of(self@),
        decreases self,
    {
        match self {
            Value::Byte(_) => TagType::BYTE,
            Value::SignedByte(_) => TagType::SBYTE,
            Value::Undefined(_) => TagType::UNDEFINED,
            Value::Short(_) => TagType::SHORT,
            Value::SShort(_) => TagType::SSHORT,
            Value::Long(_) => TagType::LONG,
            Value::SLong(_) => TagType::SLONG,
            Value::Long8(_) => TagType::LONG8,
            Value::SLong8(_) => TagType::SLONG8,
            Value::Float(_) => TagType::FLOAT,
            Value::Double(_) => TagType::DOUBLE,
            Value::Rational(_, _) => TagType::RATIONAL,
            Value::SRational(_, _) => TagType::SRATIONAL,
            Value::Ascii(_) => TagType::ASCII,
            Value::Ifd(_) => TagType::IFD,
            Value::Ifd8(_) => TagType::IFD8,
            Value::List(vs) => {
                let n = vs.len();
                if n == 0 {
                    return TagType::UNDEFINED;
                }
                let first = vs[0].tag_type();
                let mut same = true;
                let mut i: usize = 1;
                while i < n
                    invariant
                        *self matches Value::List(lvs) && lvs@ == vs@,
                        1 <= i <= n,
                        n == vs@.len(),
                        first == spec_tag_type_of(vs@[0]@),
                        same == (forall|k: int|
                            0 <= k < i ==> #[trigger] spec_tag_type_of(vs@[k]@)
                                == spec_tag_type_of(vs@[0]@)),
                    decreases n - i,
                {
                    proof {
                        assert(decreases_to!(*self => (*self)->List_0));
                        assert(decreases_to!((*self)->List_0 => (*self)->List_0@));
                        assert(decreases_to!((*self)->List_0@ => (*self)->List_0@[i as int]));
                        assert((*self)->List_0@[i as int] == vs@[i as int]);
                        assert(decreases_to!(*self => vs@[i as int]));
                    }
                    if !(vs[i].tag_type() == first) {
                        same = false;
                    }
                    i = i + 1;
                }
                proof {
                    lemma_views_of_index(vs@);
                    let views = views_of(vs@);
                    assert(self@ matches ValueView::List(l) && l == views);
                    lemma_list_tag_type(views);
                    if same {
                        assert forall|k: int|
                            0 <= k < views.len() implies #[trigger] spec_tag_type_of(views[k])
                            == spec_tag_type_of(views[0]) by {
                            assert(views[k] == vs@[k]@);
                            assert(views[0] == vs@[0]@);
                            assert(spec_tag_type_of(vs@[k]@) == spec_tag_type_of(vs@[0]@));
                        }
                        assert(list_tag_type(views) == spec_tag_type_of(views[0]));
                    } else {
                        let bad = choose|k: int|
                            0 <= k < n && #[trigger] spec_tag_type_of(vs@[k]@)
                                != spec_tag_type_of(vs@[0]@);
                        assert(views[bad] == vs@[bad]@);
                        assert(views[0] == vs@[0]@);
                        assert(spec_tag_type_of(views[bad]) != spec_tag_type_of(views[0]));
                        assert(!(forall|i: int|
                            0 <= i < views.len() ==> #[trigger] spec_tag_type_of(views[i])
                                == spec_tag_type_of(views[0])));
                        assert(list_tag_type(views) == TagType::UNDEFINED);
                    }
                }
                if same {
                    first
                } else {
                    TagType::UNDEFINED
                }
            },
        }
    }
}


/// A run of values fit for the wire: plain scalars, none a directory
/// reference, all sharing the first element's type.
pub open spec fn plain_run(items: Seq<ValueView>) -> bool {
    forall|j: int|
        #![trigger items[j]]
        0 <= j < items.len() ==> plain_scalar(items[j]) && !(items[j] is Ifd) && !(
        items[j] is Ifd8) && single_tag_type(items[j]) == single_tag_type(items[0])
}

/// Whether a decoded value survives the wire unchanged: a plain scalar
/// that is not a directory reference, a text whose last byte is not NUL,
/// or a list of at least two such scalars sharing one type. A directory
/// reference never passes the value decoder by design, a text ending in
/// NUL padding comes back trimmed, and a one-element list comes back as
/// its bare scalar.
pub open spec fn round_trippable(v: ValueView) -> bool {
    match v {
        ValueView::Ifd(_) => false,
        ValueView::Ifd8(_) => false,
        ValueView::Ascii(s) => s.len() == 0 || (all_ascii(s) && s[s.len() - 1] != 0),
        ValueView::List(items) => items.len() >= 2 && plain_run(items),
        _ => true,
    }
}

/// A plain scalar decodes back from its own one-element encoding.
proof fn lemma_single_round(v: ValueView, t: TagType, data: Seq<u8>)
    requires
        plain_scalar(v),
        !(v is Ifd),
        !(v is Ifd8),
        encodes(v, t, 1, data),
    ensures
        spec_decode_single(t, data, 0) == Ok::<ValueView, TiffError>(v),
{
}

/// A plain scalar's decoded form, read anywhere inside a larger buffer
/// whose bytes there are its own encoding.
proof fn lemma_single_view_shift(t: TagType, whole: Seq<u8>, part: Seq<u8>, j: int)
    requires
        t != TagType::ASCII,
        t != TagType::IFD,
        t != TagType::IFD8,
        0 <= j,
        (j + 1) * tag_type_size(t) <= whole.len(),
        part.len() == tag_type_size(t),
        whole.subrange(j * tag_type_size(t), (j + 1) * tag_type_size(t)) == part,
    ensures
        single_view(t, whole, j) == single_view(t, part, 0),
{
    let w = tag_type_size(t) as int;
    assert(j * w + w == (j + 1) * w) by (nonlinear_arith);
    assert(j * w >= j) by (nonlinear_arith)
        requires
            j >= 0,
            w >= 1,
    ;
    if w == 1 {
        assert(j * w == j && (j + 1) * w == j + 1) by (nonlinear_arith)
            requires
                w == 1,
        ;
        assert(whole.subrange(j, j + 1) == part);
        assert(whole[j] == whole.subrange(j, j + 1)[0]);
    } else if w == 2 {
        assert(j * w == 2 * j && (j + 1) * w == 2 * j + 2) by (nonlinear_arith)
            requires
                w == 2,
        ;
        assert(whole.subrange(2 * j, 2 * j + 2) == part);
        assert(part.subrange(0, 2) =~= part);
    } else if w == 4 {
        assert(j * w == 4 * j && (j + 1) * w == 4 * j + 4) by (nonlinear_arith)
            requires
                w == 4,
        ;
        assert(whole.subrange(4 * j, 4 * j + 4) == part);
        assert(part.subrange(0, 4) =~= part);
    } else {
        assert(j * w == 8 * j && (j + 1) * w == 8 * j + 8) by (nonlinear_arith)
            requires
                w == 8,
        ;
        assert(whole.subrange(8 * j, 8 * j + 8) == part);
        assert(part.subrange(0, 8) =~= part);
        if t == TagType::RATIONAL || t == TagType::SRATIONAL {
            assert(4 * (2 * j) == 8 * j && 4 * (2 * j) + 4 == 8 * j + 4) by (nonlinear_arith);
            assert(4 * (2 * j + 1) == 8 * j + 4 && 4 * (2 * j + 1) + 4 == 8 * j + 8)
                by (nonlinear_arith);
            assert(whole.subrange(8 * j, 8 * j + 4) =~= part.subrange(0, 4));
            assert(whole.subrange(8 * j + 4, 8 * j + 8) =~= part.subrange(4, 8));
        }
    }
}

/// Every element of an encoded run of plain scalars decodes back at its
/// own index, and the run's count is its length.
proof fn lemma_list_round(items: Seq<ValueView>, t: TagType, count: int, data: Seq<u8>)
    requires
        list_encodes(items, t, count, data),
        t != TagType::ASCII,
        t != TagType::IFD,
        t != TagType::IFD8,
        plain_run(items),
    ensures
        count == items.len(),
        data.len() == count * tag_type_size(t),
        forall|j: int|
            0 <= j < items.len() ==> #[trigger] single_view(t, data, j) == items[j],
    decreases items,
{
    let w = tag_type_size(t) as int;
    lemma_list_encodes_wf(items, t, count, data);
    if items.len() == 1 {
        assert(plain_scalar(items[0]));
        lemma_encodes_wf(items[0], t, count, data);
        assert(count == 1);
        lemma_single_round(items[0], t, data);
        assert(data.subrange(0, w) =~= data);
        lemma_single_view_shift(t, data, data, 0);
    } else {
        let c2 = encoded_count(items.last());
        let split = data.len() - c2 * w;
        let d1 = data.subrange(0, split);
        let d2 = data.subrange(split, data.len() as int);
        let prefix = items.drop_last();
        assert(plain_scalar(items.last())) by {
            assert(items.last() == items[items.len() - 1]);
        }
        lemma_encodes_wf(items.last(), t, c2, d2);
        assert(c2 == 1);
        assert(plain_run(prefix)) by {
            assert forall|j: int|
                0 <= j < prefix.len() implies #[trigger] plain_scalar(prefix[j]) && !(
            prefix[j] is Ifd) && !(prefix[j] is Ifd8) && single_tag_type(prefix[j])
                == single_tag_type(prefix[0]) by {
                assert(prefix[j] == items[j]);
                assert(prefix[0] == items[0]);
                assert(plain_scalar(items[j]) && !(items[j] is Ifd) && !(items[j] is Ifd8)
                    && single_tag_type(items[j]) == single_tag_type(items[0]));
            }
        }
        lemma_list_round(prefix, t, count - c2, d1);
        assert(count == items.len());
        assert(d1.len() == (count - 1) * w);
        assert forall|j: int|
            0 <= j < items.len() implies #[trigger] single_view(t, data, j) == items[j] by {
            assert((j + 1) * w == j * w + w) by (nonlinear_arith);
            assert(j * w >= 0) by (nonlinear_arith)
                requires
                    j >= 0,
                    w >= 1,
            ;
            if j < items.len() - 1 {
                assert((j + 1) * w <= (count - 1) * w) by (nonlinear_arith)
                    requires
                        j + 1 <= count - 1,
                        w >= 1,
                ;
                assert(single_view(t, d1, j) == prefix[j]);
                let part = d1.subrange(j * w, (j + 1) * w);
                assert(data.subrange(j * w, (j + 1) * w) =~= part);
                lemma_single_view_shift(t, d1, part, j);
                lemma_single_view_shift(t, data, part, j);
                assert(prefix[j] == items[j]);
            } else {
                lemma_single_round(items.last(), t, d2);
                assert(data.subrange((count - 1) * w, count * w) =~= d2) by {
                    assert((count - 1) * w == split) by (nonlinear_arith)
                        requires
                            d1.len() == (count - 1) * w,
                            split == d1.len(),
                    ;
                    assert(count * w == data.len()) by (nonlinear_arith)
                        requires
                            data.len() == count * w,
                    ;
                }
                lemma_single_view_shift(t, data, d2, count - 1);
                assert(single_view(t, d2, 0) == items.last());
            }
        }
    }
}

/// Round-trip law: a value that can stand on the wire — a plain scalar, a
/// NUL-free text, or a homogeneous list of at least two plain scalars —
/// decodes from its own encoded entry unchanged.
pub proof fn lemma_value_round_trip(v: ValueView, e: BufferedEntry)
    requires
        encodes(v, e.tag_type, e.count as int, e.data@),
        round_trippable(v),
    ensures
        spec_value_of_entry(e) == Ok::<ValueView, TiffError>(v),
{
    let t = e.tag_type;
    let w = tag_type_size(t) as int;
    lemma_encodes_wf(v, t, e.count as int, e.data@);
    match v {
        ValueView::Ascii(s) => {
            assert(e.data@ == s.push(0u8));
            assert(e.data@.len() == s.len() + 1);
            if s.len() == 0 {
                assert(e.count == 1);
                assert(e.data@[0] == 0);
                assert(spec_decode_single(t, e.data@, 0) == Ok::<ValueView, TiffError>(
                    ValueView::Ascii(Seq::empty()),
                ));
                assert(s =~= Seq::<u8>::empty());
                assert(ValueView::Ascii(Seq::empty()) == v);
            } else {
                assert(e.count as int == s.len() + 1 >= 2);
                assert(all_ascii(e.data@)) by {
                    assert forall|i: int| 0 <= i < e.data@.len() implies e.data@[i] < 128 by {
                        if i < s.len() {
                            assert(e.data@[i] == s[i]);
                        } else {
                            assert(e.data@[i] == 0);
                        }
                    }
                }
                assert(e.data@[e.data@.len() - 1] == 0);
                crate::entry::lemma_drop_trailing_nuls(e.data@, s.len() as int);
                assert(e.data@.subrange(0, s.len() as int) =~= s);
                assert(trim_nuls(e.data@) == s);
            }
        },
        ValueView::List(items) => {
            assert(list_encodes(items, t, e.count as int, e.data@));
            assert(plain_run(items));
            assert(plain_scalar(items[0]));
            assert(t != TagType::ASCII && t != TagType::IFD && t != TagType::IFD8) by {
                let c2 = encoded_count(items.last());
                let split = e.data@.len() - c2 * w;
                lemma_list_round_types(items, t, e.count as int, e.data@);
            }
            lemma_list_round(items, t, e.count as int, e.data@);
            assert(e.count as int == items.len() >= 2);
            assert(Seq::new(e.count as nat, |j: int| single_view(t, e.data@, j)) =~= items);
        },
        _ => {
            assert(e.count == 1);
            lemma_single_round(v, t, e.data@);
        },
    }
}

/// The type an encoded run of plain scalars carries is the scalars' own.
proof fn lemma_list_round_types(items: Seq<ValueView>, t: TagType, count: int, data: Seq<u8>)
    requires
        list_encodes(items, t, count, data),
        plain_run(items),
    ensures
        items.len() >= 1,
        t == single_tag_type(items[0]),
    decreases items,
{
    if items.len() == 1 {
        assert(plain_scalar(items[0]));
        assert(encodes(items[0], t, count, data));
    } else {
        let c2 = encoded_count(items.last());
        let split = data.len() - c2 * tag_type_size(t);
        let prefix = items.drop_last();
        assert(plain_run(prefix)) by {
            assert forall|j: int|
                0 <= j < prefix.len() implies #[trigger] plain_scalar(prefix[j]) && !(
            prefix[j] is Ifd) && !(prefix[j] is Ifd8) && single_tag_type(prefix[j])
                == single_tag_type(prefix[0]) by {
                assert(prefix[j] == items[j]);
                assert(prefix[0] == items[0]);
                assert(plain_scalar(items[j]) && !(items[j] is Ifd) && !(items[j] is Ifd8)
                    && single_tag_type(items[j]) == single_tag_type(items[0]));
            }
        }
        lemma_list_round_types(prefix, t, count - c2, data.subrange(0, split));
        assert(prefix[0] == items[0]);
    }
}

} // verus!
