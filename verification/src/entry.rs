//! Directory entries: the raw buffered form an entry's bytes are held in,
//! and the decoder that turns one on-disk entry record into either an inline
//! value or a deferred offset descriptor.

use vstd::prelude::*;

use crate::error::{EntrySummary, TiffError, TiffFormatError, TiffResult, UsageError};
use crate::tags::{tag_type_class, tag_type_primitive_size, tag_type_size, TagClass, TagType};
use crate::{u16_of, u32_of, u64_of, ByteOrder};

verus! {

/// An entry whose bytes are buffered in memory, in the crate's canonical
/// (least-significant-byte-first) order.
///
/// Invariant: `data` holds exactly `count` elements of `tag_type`'s width;
/// a directory-reference type never reaches this form.
#[derive(Debug)]
pub struct BufferedEntry {
    pub tag_type: TagType,
    pub count: u64,
    pub data: Vec<u8>,
}

/// A buffered entry is well formed when its byte length matches its declared
/// element count and width, and it holds no directory reference: reference
/// bytes are parsed as nested directories, never buffered as values.
pub open spec fn entry_wf(e: BufferedEntry) -> bool {
    &&& e.data@.len() == e.count * tag_type_size(e.tag_type)
    &&& !is_reference(e.tag_type)
}

/// Whether a type is a directory reference; such an entry can never pass
/// the value converter, whatever form is requested.
pub open spec fn is_reference(t: TagType) -> bool {
    tag_type_class(t) == TagClass::Reference
}

/// Value of the `i`-th element of `data`, read as an unsigned integer of
/// width `w` in canonical order.
pub open spec fn uint_elem(data: Seq<u8>, w: nat, i: int) -> u64 {
    if w == 1 {
        data[i] as u64
    } else if w == 2 {
        u16_of(data.subrange(2 * i, 2 * i + 2), ByteOrder::LittleEndian) as u64
    } else if w == 4 {
        u32_of(data.subrange(4 * i, 4 * i + 4), ByteOrder::LittleEndian) as u64
    } else {
        u64_of(data.subrange(8 * i, 8 * i + 8), ByteOrder::LittleEndian)
    }
}

/// The signed reading of an unsigned value of width `w`: two's complement.
pub open spec fn as_signed(u: u64, w: nat) -> int {
    let half = pow2_half(w);
    if u < half {
        u as int
    } else {
        u - 2 * half
    }
}

/// Half the range of an unsigned integer of width `w` (1, 2, 4 or 8 bytes).
pub open spec fn pow2_half(w: nat) -> int {
    if w == 1 {
        0x80
    } else if w == 2 {
        0x8000
    } else if w == 4 {
        0x8000_0000
    } else {
        0x8000_0000_0000_0000
    }
}

/// Whether this type's scalars read as unsigned integers.
pub open spec fn reads_unsigned(t: TagType) -> bool {
    tag_type_class(t) == TagClass::Unsigned
}

/// Whether this type's scalars read as signed integers.
pub open spec fn reads_signed(t: TagType) -> bool {
    tag_type_class(t) == TagClass::Signed
}

impl BufferedEntry {
    /// The structured context this entry contributes to an error.
    pub open spec fn spec_summary(self) -> EntrySummary {
        EntrySummary { tag_type: self.tag_type, count: self.count, data_len: self.data@.len() as usize }
    }

    /// Summarize this entry for an error payload.
    pub fn summary(&self) -> (r: EntrySummary)
        ensures
            r == self.spec_summary(),
    {
        EntrySummary { tag_type: self.tag_type, count: self.count, data_len: self.data.len() }
    }

    /// Borrow the raw bytes.
    pub fn data(&self) -> (r: &Vec<u8>)
        ensures
            r@ == self.data@,
    {
        &self.data
    }

    /// A fresh zero-filled entry of the given type and count.
    ///
    /// A directory reference cannot be buffered as values, and a byte
    /// length beyond what the machine can address fails with
    /// `LimitsExceeded`.
    pub fn new(tag_type: TagType, count: u64) -> (r: TiffResult<Self>)
        ensures
            match r {
                Ok(e) => {
                    &&& !is_reference(tag_type)
                    &&& count * tag_type_size(tag_type) <= usize::MAX
                    &&& e.tag_type == tag_type
                    &&& e.count == count
                    &&& e.data@ == Seq::new((count * tag_type_size(tag_type)) as nat, |i: int| 0u8)
                    &&& entry_wf(e)
                },
                Err(err) => if is_reference(tag_type) {
                    err == TiffError::UsageError(UsageError::IfdReadIntoEntry)
                } else {
                    &&& count * tag_type_size(tag_type) > usize::MAX
                    &&& err == TiffError::LimitsExceeded
                },
            },
    {
        match tag_type {
            TagType::IFD | TagType::IFD8 => {
                return Err(TiffError::UsageError(UsageError::IfdReadIntoEntry));
            },
            _ => (),
        }
        let w = tag_type.size();
        let byte_len: u128 = (count as u128) * (w as u128);
        if byte_len > usize::MAX as u128 {
            return Err(TiffError::LimitsExceeded);
        }
        let n: usize = byte_len as usize;
        let mut data: Vec<u8> = Vec::new();
        let mut i: usize = 0;
        while i < n
            invariant
                i <= n,
                data@ =~= Seq::new(i as nat, |j: int| 0u8),
            decreases n - i,
        {
            data.push(0u8);
            i = i + 1;
        }
        assert(data@ =~= Seq::new((count * tag_type_size(tag_type)) as nat, |j: int| 0u8));
        Ok(BufferedEntry { tag_type, count, data })
    }
}

impl Clone for BufferedEntry {
    /// A clone keeps the type, the count and the bytes.
    fn clone(&self) -> (r: Self)
        ensures
            r.tag_type == self.tag_type,
            r.count == self.count,
            r.data@ == self.data@,
    {
        let data = self.data.clone();
        proof {
            assert(data@ =~= self.data@);
        }
        BufferedEntry { tag_type: self.tag_type, count: self.count, data }
    }
}

impl vstd::std_specs::cmp::PartialEqSpecImpl for BufferedEntry {
    open spec fn obeys_eq_spec() -> bool {
        true
    }

    open spec fn eq_spec(&self, other: &Self) -> bool {
        self.tag_type == other.tag_type && self.count == other.count && self.data@ == other.data@
    }
}

impl PartialEq for BufferedEntry {
    /// Two buffered entries are equal when type, count and bytes agree.
    fn eq(&self, other: &Self) -> (r: bool) {
        let r = self.tag_type == other.tag_type && self.count == other.count
            && self.data == other.data;
        proof {
            if r {
                assert(self.data@ =~= other.data@);
            }
        }
        r
    }
}

/// The bit pattern of a buffered floating-point scalar; interpreting the
/// pattern is left to the caller, this crate never computes on floats.
#[derive(Debug, Copy, Clone, PartialEq, Eq, Structural)]
pub enum FloatBits {
    /// Bits of a four-byte (single precision) value.
    Single(u32),
    /// Bits of an eight-byte (double precision) value.
    Double(u64),
}

/// Result the scalar conversion matrix assigns to an unsigned request with
/// the given inclusive maximum: the size must match exactly, the type must
/// read as unsigned, and the value must fit the target.
pub open spec fn spec_try_unsigned(e: BufferedEntry, max: u64) -> Result<u64, TiffError> {
    let w = tag_type_size(e.tag_type);
    if is_reference(e.tag_type) {
        Err(TiffError::UsageError(UsageError::IfdReadIntoEntry))
    } else if e.data@.len() != w {
        Err(TiffError::FormatError(TiffFormatError::InconsistentSizesEncountered(e.spec_summary())))
    } else if !reads_unsigned(e.tag_type) {
        Err(TiffError::FormatError(TiffFormatError::UnsignedIntegerExpected(e.spec_summary())))
    } else if uint_elem(e.data@, w, 0) > max {
        Err(TiffError::IntSizeError)
    } else {
        Ok(uint_elem(e.data@, w, 0))
    }
}

/// Result the scalar conversion matrix assigns to a signed request with the
/// given inclusive bounds.
pub open spec fn spec_try_signed(e: BufferedEntry, min: int, max: int) -> Result<int, TiffError> {
    let w = tag_type_size(e.tag_type);
    if is_reference(e.tag_type) {
        Err(TiffError::UsageError(UsageError::IfdReadIntoEntry))
    } else if e.data@.len() != w {
        Err(TiffError::FormatError(TiffFormatError::InconsistentSizesEncountered(e.spec_summary())))
    } else if !reads_signed(e.tag_type) {
        Err(TiffError::FormatError(TiffFormatError::SignedIntegerExpected(e.spec_summary())))
    } else if as_signed(uint_elem(e.data@, w, 0), w) < min || as_signed(
        uint_elem(e.data@, w, 0),
        w,
    ) > max {
        Err(TiffError::IntSizeError)
    } else {
        Ok(as_signed(uint_elem(e.data@, w, 0), w))
    }
}

/// Result the scalar conversion matrix assigns to a floating-point request:
/// the size must match exactly and the type must be a float type; the bits
/// come back uninterpreted.
pub open spec fn spec_try_float_bits(e: BufferedEntry) -> Result<FloatBits, TiffError> {
    let w = tag_type_size(e.tag_type);
    if is_reference(e.tag_type) {
        Err(TiffError::UsageError(UsageError::IfdReadIntoEntry))
    } else if e.data@.len() != w {
        Err(TiffError::FormatError(TiffFormatError::InconsistentSizesEncountered(e.spec_summary())))
    } else if e.tag_type == TagType::FLOAT {
        Ok(FloatBits::Single(uint_elem(e.data@, 4, 0) as u32))
    } else if e.tag_type == TagType::DOUBLE {
        Ok(FloatBits::Double(uint_elem(e.data@, 8, 0)))
    } else {
        Err(TiffError::FormatError(TiffFormatError::FloatExpected(e.spec_summary())))
    }
}

/// Result the scalar conversion matrix assigns to a single-precision
/// request: only a FLOAT source qualifies; a DOUBLE never narrows.
pub open spec fn spec_try_f32_bits(e: BufferedEntry) -> Result<u32, TiffError> {
    if is_reference(e.tag_type) {
        Err(TiffError::UsageError(UsageError::IfdReadIntoEntry))
    } else if e.data@.len() != tag_type_size(e.tag_type) {
        Err(TiffError::FormatError(TiffFormatError::InconsistentSizesEncountered(e.spec_summary())))
    } else if e.tag_type == TagType::FLOAT {
        Ok(uint_elem(e.data@, 4, 0) as u32)
    } else {
        Err(TiffError::FormatError(TiffFormatError::FloatExpected(e.spec_summary())))
    }
}

impl BufferedEntry {
    /// Whether this entry's type reads as an unsigned scalar.
    fn is_unsigned_like(&self) -> (r: bool)
        ensures
            r == reads_unsigned(self.tag_type),
    {
        match self.tag_type {
            TagType::BYTE | TagType::SHORT | TagType::LONG | TagType::LONG8 => true,
            _ => false,
        }
    }

    /// Whether this entry's type is a directory reference.
    fn is_reference_type(&self) -> (r: bool)
        ensures
            r == is_reference(self.tag_type),
    {
        match self.tag_type {
            TagType::IFD | TagType::IFD8 => true,
            _ => false,
        }
    }

    /// Whether this entry's type reads as a signed scalar.
    fn is_signed_like(&self) -> (r: bool)
        ensures
            r == reads_signed(self.tag_type),
    {
        match self.tag_type {
            TagType::SBYTE | TagType::SSHORT | TagType::SLONG | TagType::SLONG8 => true,
            _ => false,
        }
    }

    /// The single unsigned scalar this entry holds, if its size matches, its
    /// type reads as unsigned, and the value is at most `max`.
    fn scalar_unsigned(&self, max: u64) -> (r: TiffResult<u64>)
        ensures
            r == spec_try_unsigned(*self, max),
    {
        if self.is_reference_type() {
            return Err(TiffError::UsageError(UsageError::IfdReadIntoEntry));
        }
        let w = self.tag_type.size();
        if self.data.len() != w {
            return Err(TiffError::FormatError(TiffFormatError::InconsistentSizesEncountered(
                self.summary(),
            )));
        }
        if !self.is_unsigned_like() {
            return Err(TiffError::FormatError(TiffFormatError::UnsignedIntegerExpected(
                self.summary(),
            )));
        }
        let v = uint_at(&self.data, w, 0);
        if v > max {
            Err(TiffError::IntSizeError)
        } else {
            Ok(v)
        }
    }

    /// The single signed scalar this entry holds, as a value in `i128`, if
    /// its size matches, its type reads as signed, and the value lies within
    /// `min ..= max`.
    fn scalar_signed(&self, min: i128, max: i128) -> (r: TiffResult<i128>)
        ensures
            match spec_try_signed(*self, min as int, max as int) {
                Ok(v) => r matches Ok(x) && x == v,
                Err(e) => r == Err::<i128, TiffError>(e),
            },
    {
        if self.is_reference_type() {
            return Err(TiffError::UsageError(UsageError::IfdReadIntoEntry));
        }
        let w = self.tag_type.size();
        if self.data.len() != w {
            return Err(TiffError::FormatError(TiffFormatError::InconsistentSizesEncountered(
                self.summary(),
            )));
        }
        if !self.is_signed_like() {
            return Err(TiffError::FormatError(TiffFormatError::SignedIntegerExpected(
                self.summary(),
            )));
        }
        let u = uint_at(&self.data, w, 0);
        let half: u64 = if w == 1 {
            0x80
        } else if w == 2 {
            0x8000
        } else if w == 4 {
            0x8000_0000
        } else {
            0x8000_0000_0000_0000
        };
        let s: i128 = if u < half {
            u as i128
        } else {
            u as i128 - 2 * (half as i128)
        };
        if s < min || s > max {
            Err(TiffError::IntSizeError)
        } else {
            Ok(s)
        }
    }

    /// This entry's value as an eight-byte unsigned integer.
    pub fn try_to_u64(&self) -> (r: TiffResult<u64>)
        ensures
            r == spec_try_unsigned(*self, u64::MAX),
    {
        self.scalar_unsigned(u64::MAX)
    }

    /// This entry's value as a four-byte unsigned integer.
    pub fn try_to_u32(&self) -> (r: TiffResult<u32>)
        ensures
            match spec_try_unsigned(*self, u32::MAX as u64) {
                Ok(v) => r matches Ok(x) && x == v,
                Err(e) => r == Err::<u32, TiffError>(e),
            },
    {
        match self.scalar_unsigned(u32::MAX as u64) {
            Ok(v) => Ok(v as u32),
            Err(e) => Err(e),
        }
    }

    /// This entry's value as a two-byte unsigned integer.
    pub fn try_to_u16(&self) -> (r: TiffResult<u16>)
        ensures
            match spec_try_unsigned(*self, u16::MAX as u64) {
                Ok(v) => r matches Ok(x) && x == v,
                Err(e) => r == Err::<u16, TiffError>(e),
            },
    {
        match self.scalar_unsigned(u16::MAX as u64) {
            Ok(v) => Ok(v as u16),
            Err(e) => Err(e),
        }
    }

    /// This entry's value as a one-byte unsigned integer.
    pub fn try_to_u8(&self) -> (r: TiffResult<u8>)
        ensures
            match spec_try_unsigned(*self, u8::MAX as u64) {
                Ok(v) => r matches Ok(x) && x == v,
                Err(e) => r == Err::<u8, TiffError>(e),
            },
    {
        match self.scalar_unsigned(u8::MAX as u64) {
            Ok(v) => Ok(v as u8),
            Err(e) => Err(e),
        }
    }

    /// This entry's value as an eight-byte signed integer.
    pub fn try_to_i64(&self) -> (r: TiffResult<i64>)
        ensures
            match spec_try_signed(*self, i64::MIN as int, i64::MAX as int) {
                Ok(v) => r matches Ok(x) && x == v,
                Err(e) => r == Err::<i64, TiffError>(e),
            },
    {
        match self.scalar_signed(i64::MIN as i128, i64::MAX as i128) {
            Ok(v) => Ok(v as i64),
            Err(e) => Err(e),
        }
    }

    /// This entry's value as a four-byte signed integer.
    pub fn try_to_i32(&self) -> (r: TiffResult<i32>)
        ensures
            match spec_try_signed(*self, i32::MIN as int, i32::MAX as int) {
                Ok(v) => r matches Ok(x) && x == v,
                Err(e) => r == Err::<i32, TiffError>(e),
            },
    {
        match self.scalar_signed(i32::MIN as i128, i32::MAX as i128) {
            Ok(v) => Ok(v as i32),
            Err(e) => Err(e),
        }
    }

    /// This entry's value as a two-byte signed integer.
    pub fn try_to_i16(&self) -> (r: TiffResult<i16>)
        ensures
            match spec_try_signed(*self, i16::MIN as int, i16::MAX as int) {
                Ok(v) => r matches Ok(x) && x == v,
                Err(e) => r == Err::<i16, TiffError>(e),
            },
    {
        match self.scalar_signed(i16::MIN as i128, i16::MAX as i128) {
            Ok(v) => Ok(v as i16),
            Err(e) => Err(e),
        }
    }

    /// This entry's value as a one-byte signed integer.
    pub fn try_to_i8(&self) -> (r: TiffResult<i8>)
        ensures
            match spec_try_signed(*self, i8::MIN as int, i8::MAX as int) {
                Ok(v) => r matches Ok(x) && x == v,
                Err(e) => r == Err::<i8, TiffError>(e),
            },
    {
        match self.scalar_signed(i8::MIN as i128, i8::MAX as i128) {
            Ok(v) => Ok(v as i8),
            Err(e) => Err(e),
        }
    }

    /// The bit pattern of this entry's single floating-point scalar.
    pub fn try_to_float_bits(&self) -> (r: TiffResult<FloatBits>)
        ensures
            r == spec_try_float_bits(*self),
    {
        if self.is_reference_type() {
            return Err(TiffError::UsageError(UsageError::IfdReadIntoEntry));
        }
        let w = self.tag_type.size();
        if self.data.len() != w {
            return Err(TiffError::FormatError(TiffFormatError::InconsistentSizesEncountered(
                self.summary(),
            )));
        }
        match self.tag_type {
            TagType::FLOAT => Ok(FloatBits::Single(uint_at(&self.data, 4, 0) as u32)),
            TagType::DOUBLE => Ok(FloatBits::Double(uint_at(&self.data, 8, 0))),
            _ => Err(TiffError::FormatError(TiffFormatError::FloatExpected(self.summary()))),
        }
    }

    /// The bit pattern of this entry's single-precision scalar; a DOUBLE
    /// source fails rather than narrow.
    pub fn try_to_f32_bits(&self) -> (r: TiffResult<u32>)
        ensures
            r == spec_try_f32_bits(*self),
    {
        if self.is_reference_type() {
            return Err(TiffError::UsageError(UsageError::IfdReadIntoEntry));
        }
        let w = self.tag_type.size();
        if self.data.len() != w {
            return Err(TiffError::FormatError(TiffFormatError::InconsistentSizesEncountered(
                self.summary(),
            )));
        }
        match self.tag_type {
            TagType::FLOAT => Ok(uint_at(&self.data, 4, 0) as u32),
            _ => Err(TiffError::FormatError(TiffFormatError::FloatExpected(self.summary()))),
        }
    }
}

/// The sequence of unsigned element values a buffer of `n` elements of
/// width `w` holds.
pub open spec fn uint_seq(data: Seq<u8>, w: nat, n: nat) -> Seq<u64> {
    Seq::new(n, |j: int| uint_elem(data, w, j))
}

/// The guard every whole-buffer conversion shares: the entry must not be a
/// directory reference, the count must be addressable, and the byte length
/// must match `count * width`.
pub open spec fn spec_vec_guard(e: BufferedEntry) -> Option<TiffError> {
    if is_reference(e.tag_type) {
        Some(TiffError::UsageError(UsageError::IfdReadIntoEntry))
    } else if e.count > usize::MAX {
        Some(TiffError::IntSizeError)
    } else if e.data@.len() != e.count * tag_type_size(e.tag_type) {
        Some(
            TiffError::FormatError(TiffFormatError::InconsistentSizesEncountered(e.spec_summary())),
        )
    } else {
        None
    }
}

/// Result the whole-buffer conversion assigns when only the types in
/// `type_ok` are accepted: the unsigned element values, or the mismatch
/// error the caller names.
pub open spec fn spec_try_uint_seq(e: BufferedEntry, type_ok: bool, mismatch: TiffError) -> Result<
    Seq<u64>,
    TiffError,
> {
    match spec_vec_guard(e) {
        Some(err) => Err(err),
        Option::None => if !type_ok {
            Err(mismatch)
        } else {
            Ok(uint_seq(e.data@, tag_type_size(e.tag_type), e.count as nat))
        },
    }
}

/// Result of indexed unsigned access into a buffered entry.
pub open spec fn spec_get_u64(e: BufferedEntry, index: int) -> Result<u64, TiffError> {
    if is_reference(e.tag_type) {
        Err(TiffError::UsageError(UsageError::IfdReadIntoEntry))
    } else if e.count > usize::MAX {
        Err(TiffError::IntSizeError)
    } else if e.count <= index {
        Err(TiffError::LimitsExceeded)
    } else if !reads_unsigned(e.tag_type) {
        Err(TiffError::FormatError(TiffFormatError::UnsignedIntegerExpected(e.spec_summary())))
    } else if e.data@.len() != e.count * tag_type_size(e.tag_type) {
        Err(TiffError::FormatError(TiffFormatError::InconsistentSizesEncountered(e.spec_summary())))
    } else {
        Ok(uint_elem(e.data@, tag_type_size(e.tag_type), index))
    }
}

impl BufferedEntry {
    /// Check the shared whole-buffer guard, reporting the byte count.
    fn vec_guard(&self) -> (r: Result<usize, TiffError>)
        ensures
            match spec_vec_guard(*self) {
                Some(err) => r == Err::<usize, TiffError>(err),
                Option::None => r matches Ok(n) && n == self.count * tag_type_size(self.tag_type)
                    && n == self.data@.len(),
            },
    {
        if self.is_reference_type() {
            return Err(TiffError::UsageError(UsageError::IfdReadIntoEntry));
        }
        if self.count > usize::MAX as u64 {
            return Err(TiffError::IntSizeError);
        }
        let w = self.tag_type.size();
        let byte_len: u128 = (self.count as u128) * (w as u128);
        let dl: usize = self.data.len();
        if dl as u128 != byte_len {
            return Err(TiffError::FormatError(TiffFormatError::InconsistentSizesEncountered(
                self.summary(),
            )));
        }
        Ok(dl)
    }

    /// Read element `index` of this entry as an unsigned integer, whatever
    /// unsigned width the entry declares.
    pub fn get_u64(&self, index: usize) -> (r: TiffResult<u64>)
        ensures
            r == spec_get_u64(*self, index as int),
    {
        if self.is_reference_type() {
            return Err(TiffError::UsageError(UsageError::IfdReadIntoEntry));
        }
        if self.count > usize::MAX as u64 {
            return Err(TiffError::IntSizeError);
        }
        if self.count as usize <= index {
            return Err(TiffError::LimitsExceeded);
        }
        if !self.is_unsigned_like() {
            return Err(TiffError::FormatError(TiffFormatError::UnsignedIntegerExpected(
                self.summary(),
            )));
        }
        let w = self.tag_type.size();
        let byte_len: u128 = (self.count as u128) * (w as u128);
        let dl: usize = self.data.len();
        if dl as u128 != byte_len {
            return Err(TiffError::FormatError(TiffFormatError::InconsistentSizesEncountered(
                self.summary(),
            )));
        }
        proof {
            assert((index + 1) * tag_type_size(self.tag_type) <= self.data@.len())
                by (nonlinear_arith)
                requires
                    index < self.count,
                    self.data@.len() == self.count * tag_type_size(self.tag_type),
                    1 <= tag_type_size(self.tag_type),
            ;
        }
        Ok(uint_at(&self.data, w, index))
    }

    /// All elements of this entry as unsigned integers, whatever unsigned
    /// width it declares; the lenient counterpart of the exactly-typed
    /// vectors, used where offsets may be four or eight bytes wide.
    pub fn try_to_uint_vec(&self) -> (r: TiffResult<Vec<u64>>)
        ensures
            match spec_try_uint_seq(
                *self,
                reads_unsigned(self.tag_type),
                TiffError::FormatError(
                    TiffFormatError::UnsignedIntegerExpected(self.spec_summary()),
                ),
            ) {
                Ok(s) => r matches Ok(v) && v@ == s,
                Err(e) => r == Err::<Vec<u64>, TiffError>(e),
            },
    {
        match self.vec_guard() {
            Ok(_) => (),
            Err(e) => {
                return Err(e);
            },
        };
        if !self.is_unsigned_like() {
            return Err(TiffError::FormatError(TiffFormatError::UnsignedIntegerExpected(
                self.summary(),
            )));
        }
        let w = self.tag_type.size();
        let cnt = self.count as usize;
        let mut out: Vec<u64> = Vec::new();
        let mut i: usize = 0;
        while i < cnt
            invariant
                i <= cnt,
                cnt == self.count,
                w == tag_type_size(self.tag_type),
                w == 1 || w == 2 || w == 4 || w == 8,
                self.data@.len() == cnt * w,
                out@.len() == i,
                forall|j: int|
                    0 <= j < i ==> out@[j] == uint_elem(self.data@, w as nat, j),
            decreases cnt - i,
        {
            proof {
                assert((i + 1) * w <= cnt * w) by (nonlinear_arith)
                    requires
                        i < cnt,
                        1 <= w,
                ;
            }
            out.push(uint_at(&self.data, w, i));
            i = i + 1;
        }
        proof {
            assert(out@ =~= uint_seq(self.data@, w as nat, cnt as nat));
        }
        Ok(out)
    }
}

impl BufferedEntry {
    /// All elements of this entry as one-byte unsigned integers; only the
    /// exactly matching on-disk types are accepted.
    pub fn try_to_u8_vec(&self) -> (r: TiffResult<Vec<u8>>)
        ensures
            match spec_try_uint_seq(
                *self,
                self.tag_type == TagType::BYTE,
                TiffError::FormatError(
                    TiffFormatError::InconsistentSizesEncountered(self.spec_summary()),
                ),
            ) {
                Ok(s) => r matches Ok(v) && v@.len() == s.len() && (forall|j: int|
                    0 <= j < s.len() ==> v@[j] == s[j] as u8),
                Err(e) => r == Err::<Vec<u8>, TiffError>(e),
            },
    {
        match self.vec_guard() {
            Ok(_) => (),
            Err(e) => {
                return Err(e);
            },
        };
        let type_ok = match self.tag_type {
            TagType::BYTE => true,
            _ => false,
        };
        if !type_ok {
            return Err(TiffError::FormatError(TiffFormatError::InconsistentSizesEncountered(
                self.summary(),
            )));
        }
        let w = self.tag_type.size();
        let cnt = self.count as usize;
        let mut out: Vec<u8> = Vec::new();
        let mut i: usize = 0;
        while i < cnt
            invariant
                i <= cnt,
                cnt == self.count,
                w == tag_type_size(self.tag_type),
                w == 1 || w == 2 || w == 4 || w == 8,
                self.data@.len() == cnt * w,
                out@.len() == i,
                forall|j: int|
                    0 <= j < i ==> out@[j] == uint_elem(self.data@, w as nat, j) as u8,
            decreases cnt - i,
        {
            proof {
                assert((i + 1) * w <= cnt * w) by (nonlinear_arith)
                    requires
                        i < cnt,
                        1 <= w,
                ;
            }
            out.push(uint_at(&self.data, w, i) as u8);
            i = i + 1;
        }
        Ok(out)
    }

    /// All elements of this entry as two-byte unsigned integers; only the
    /// exactly matching on-disk types are accepted.
    pub fn try_to_u16_vec(&self) -> (r: TiffResult<Vec<u16>>)
        ensures
            match spec_try_uint_seq(
                *self,
                self.tag_type == TagType::SHORT,
                TiffError::FormatError(
                    TiffFormatError::InconsistentSizesEncountered(self.spec_summary()),
                ),
            ) {
                Ok(s) => r matches Ok(v) && v@.len() == s.len() && (forall|j: int|
                    0 <= j < s.len() ==> v@[j] == s[j] as u16),
                Err(e) => r == Err::<Vec<u16>, TiffError>(e),
            },
    {
        match self.vec_guard() {
            Ok(_) => (),
            Err(e) => {
                return Err(e);
            },
        };
        let type_ok = match self.tag_type {
            TagType::SHORT => true,
            _ => false,
        };
        if !type_ok {
            return Err(TiffError::FormatError(TiffFormatError::InconsistentSizesEncountered(
                self.summary(),
            )));
        }
        let w = self.tag_type.size();
        let cnt = self.count as usize;
        let mut out: Vec<u16> = Vec::new();
        let mut i: usize = 0;
        while i < cnt
            invariant
                i <= cnt,
                cnt == self.count,
                w == tag_type_size(self.tag_type),
                w == 1 || w == 2 || w == 4 || w == 8,
                self.data@.len() == cnt * w,
                out@.len() == i,
                forall|j: int|
                    0 <= j < i ==> out@[j] == uint_elem(self.data@, w as nat, j) as u16,
            decreases cnt - i,
        {
            proof {
                assert((i + 1) * w <= cnt * w) by (nonlinear_arith)
                    requires
                        i < cnt,
                        1 <= w,
                ;
            }
            out.push(uint_at(&self.data, w, i) as u16);
            i = i + 1;
        }
        Ok(out)
    }

    /// All elements of this entry as four-byte unsigned integers; only the
    /// exactly matching on-disk types are accepted.
    pub fn try_to_u32_vec(&self) -> (r: TiffResult<Vec<u32>>)
        ensures
            match spec_try_uint_seq(
                *self,
                self.tag_type == TagType::LONG,
                TiffError::FormatError(
                    TiffFormatError::InconsistentSizesEncountered(self.spec_summary()),
                ),
            ) {
                Ok(s) => r matches Ok(v) && v@.len() == s.len() && (forall|j: int|
                    0 <= j < s.len() ==> v@[j] == s[j] as u32),
                Err(e) => r == Err::<Vec<u32>, TiffError>(e),
            },
    {
        match self.vec_guard() {
            Ok(_) => (),
            Err(e) => {
                return Err(e);
            },
        };
        let type_ok = match self.tag_type {
            TagType::LONG => true,
            _ => false,
        };
        if !type_ok {
            return Err(TiffError::FormatError(TiffFormatError::InconsistentSizesEncountered(
                self.summary(),
            )));
        }
        let w = self.tag_type.size();
        let cnt = self.count as usize;
        let mut out: Vec<u32> = Vec::new();
        let mut i: usize = 0;
        while i < cnt
            invariant
                i <= cnt,
                cnt == self.count,
                w == tag_type_size(self.tag_type),
                w == 1 || w == 2 || w == 4 || w == 8,
                self.data@.len() == cnt * w,
                out@.len() == i,
                forall|j: int|
                    0 <= j < i ==> out@[j] == uint_elem(self.data@, w as nat, j) as u32,
            decreases cnt - i,
        {
            proof {
                assert((i + 1) * w <= cnt * w) by (nonlinear_arith)
                    requires
                        i < cnt,
                        1 <= w,
                ;
            }
            out.push(uint_at(&self.data, w, i) as u32);
            i = i + 1;
        }
        Ok(out)
    }

    /// All elements of this entry as eight-byte unsigned integers; only the
    /// exactly matching on-disk types are accepted.
    pub fn try_to_u64_vec(&self) -> (r: TiffResult<Vec<u64>>)
        ensures
            match spec_try_uint_seq(
                *self,
                self.tag_type == TagType::LONG8,
                TiffError::FormatError(
                    TiffFormatError::InconsistentSizesEncountered(self.spec_summary()),
                ),
            ) {
                Ok(s) => r matches Ok(v) && v@.len() == s.len() && (forall|j: int|
                    0 <= j < s.len() ==> v@[j] == s[j]),
                Err(e) => r == Err::<Vec<u64>, TiffError>(e),
            },
    {
        match self.vec_guard() {
            Ok(_) => (),
            Err(e) => {
                return Err(e);
            },
        };
        let type_ok = match self.tag_type {
            TagType::LONG8 => true,
            _ => false,
        };
        if !type_ok {
            return Err(TiffError::FormatError(TiffFormatError::InconsistentSizesEncountered(
                self.summary(),
            )));
        }
        let w = self.tag_type.size();
        let cnt = self.count as usize;
        let mut out: Vec<u64> = Vec::new();
        let mut i: usize = 0;
        while i < cnt
            invariant
                i <= cnt,
                cnt == self.count,
                w == tag_type_size(self.tag_type),
                w == 1 || w == 2 || w == 4 || w == 8,
                self.data@.len() == cnt * w,
                out@.len() == i,
                forall|j: int|
                    0 <= j < i ==> out@[j] == uint_elem(self.data@, w as nat, j),
            decreases cnt - i,
        {
            proof {
                assert((i + 1) * w <= cnt * w) by (nonlinear_arith)
                    requires
                        i < cnt,
                        1 <= w,
                ;
            }
            out.push(uint_at(&self.data, w, i));
            i = i + 1;
        }
        Ok(out)
    }

    /// All elements of this entry as one-byte signed integers; only the
    /// exactly matching on-disk type is accepted.
    pub fn try_to_i8_vec(&self) -> (r: TiffResult<Vec<i8>>)
        ensures
            match spec_try_uint_seq(
                *self,
                self.tag_type == TagType::SBYTE,
                TiffError::FormatError(
                    TiffFormatError::InconsistentSizesEncountered(self.spec_summary()),
                ),
            ) {
                Ok(s) => r matches Ok(v) && v@.len() == s.len() && (forall|j: int|
                    0 <= j < s.len() ==> v@[j] as int == as_signed(s[j], 1)),
                Err(e) => r == Err::<Vec<i8>, TiffError>(e),
            },
    {
        match self.vec_guard() {
            Ok(_) => (),
            Err(e) => {
                return Err(e);
            },
        };
        let type_ok = match self.tag_type {
            TagType::SBYTE => true,
            _ => false,
        };
        if !type_ok {
            return Err(TiffError::FormatError(TiffFormatError::InconsistentSizesEncountered(
                self.summary(),
            )));
        }
        let w = self.tag_type.size();
        let cnt = self.count as usize;
        let mut out: Vec<i8> = Vec::new();
        let mut i: usize = 0;
        while i < cnt
            invariant
                i <= cnt,
                cnt == self.count,
                w == 1,
                w == tag_type_size(self.tag_type),
                self.data@.len() == cnt * w,
                out@.len() == i,
                forall|j: int|
                    0 <= j < i ==> out@[j] as int == as_signed(
                        uint_elem(self.data@, w as nat, j),
                        1,
                    ),
            decreases cnt - i,
        {
            proof {
                assert((i + 1) * w <= cnt * w) by (nonlinear_arith)
                    requires
                        i < cnt,
                        1 <= w,
                ;
            }
            let u = uint_at(&self.data, w, i);
            let s: i8 = if u < 0x80u64 {
                u as i8
            } else {
                ((u as i128) - 2 * (0x80u64 as i128)) as i8
            };
            out.push(s);
            i = i + 1;
        }
        Ok(out)
    }

    /// All elements of this entry as two-byte signed integers; only the
    /// exactly matching on-disk type is accepted.
    pub fn try_to_i16_vec(&self) -> (r: TiffResult<Vec<i16>>)
        ensures
            match spec_try_uint_seq(
                *self,
                self.tag_type == TagType::SSHORT,
                TiffError::FormatError(
                    TiffFormatError::InconsistentSizesEncountered(self.spec_summary()),
                ),
            ) {
                Ok(s) => r matches Ok(v) && v@.len() == s.len() && (forall|j: int|
                    0 <= j < s.len() ==> v@[j] as int == as_signed(s[j], 2)),
                Err(e) => r == Err::<Vec<i16>, TiffError>(e),
            },
    {
        match self.vec_guard() {
            Ok(_) => (),
            Err(e) => {
                return Err(e);
            },
        };
        let type_ok = match self.tag_type {
            TagType::SSHORT => true,
            _ => false,
        };
        if !type_ok {
            return Err(TiffError::FormatError(TiffFormatError::InconsistentSizesEncountered(
                self.summary(),
            )));
        }
        let w = self.tag_type.size();
        let cnt = self.count as usize;
        let mut out: Vec<i16> = Vec::new();
        let mut i: usize = 0;
        while i < cnt
            invariant
                i <= cnt,
                cnt == self.count,
                w == 2,
                w == tag_type_size(self.tag_type),
                self.data@.len() == cnt * w,
                out@.len() == i,
                forall|j: int|
                    0 <= j < i ==> out@[j] as int == as_signed(
                        uint_elem(self.data@, w as nat, j),
                        2,
                    ),
            decreases cnt - i,
        {
            proof {
                assert((i + 1) * w <= cnt * w) by (nonlinear_arith)
                    requires
                        i < cnt,
                        1 <= w,
                ;
            }
            let u = uint_at(&self.data, w, i);
            let s: i16 = if u < 0x8000u64 {
                u as i16
            } else {
                ((u as i128) - 2 * (0x8000u64 as i128)) as i16
            };
            out.push(s);
            i = i + 1;
        }
        Ok(out)
    }

    /// All elements of this entry as four-byte signed integers; only the
    /// exactly matching on-disk type is accepted.
    pub fn try_to_i32_vec(&self) -> (r: TiffResult<Vec<i32>>)
        ensures
            match spec_try_uint_seq(
                *self,
                self.tag_type == TagType::SLONG,
                TiffError::FormatError(
                    TiffFormatError::InconsistentSizesEncountered(self.spec_summary()),
                ),
            ) {
                Ok(s) => r matches Ok(v) && v@.len() == s.len() && (forall|j: int|
                    0 <= j < s.len() ==> v@[j] as int == as_signed(s[j], 4)),
                Err(e) => r == Err::<Vec<i32>, TiffError>(e),
            },
    {
        match self.vec_guard() {
            Ok(_) => (),
            Err(e) => {
                return Err(e);
            },
        };
        let type_ok = match self.tag_type {
            TagType::SLONG => true,
            _ => false,
        };
        if !type_ok {
            return Err(TiffError::FormatError(TiffFormatError::InconsistentSizesEncountered(
                self.summary(),
            )));
        }
        let w = self.tag_type.size();
        let cnt = self.count as usize;
        let mut out: Vec<i32> = Vec::new();
        let mut i: usize = 0;
        while i < cnt
            invariant
                i <= cnt,
                cnt == self.count,
                w == 4,
                w == tag_type_size(self.tag_type),
                self.data@.len() == cnt * w,
                out@.len() == i,
                forall|j: int|
                    0 <= j < i ==> out@[j] as int == as_signed(
                        uint_elem(self.data@, w as nat, j),
                        4,
                    ),
            decreases cnt - i,
        {
            proof {
                assert((i + 1) * w <= cnt * w) by (nonlinear_arith)
                    requires
                        i < cnt,
                        1 <= w,
                ;
            }
            let u = uint_at(&self.data, w, i);
            let s: i32 = if u < 0x8000_0000u64 {
                u as i32
            } else {
                ((u as i128) - 2 * (0x8000_0000u64 as i128)) as i32
            };
            out.push(s);
            i = i + 1;
        }
        Ok(out)
    }

    /// All elements of this entry as eight-byte signed integers; only the
    /// exactly matching on-disk type is accepted.
    pub fn try_to_i64_vec(&self) -> (r: TiffResult<Vec<i64>>)
        ensures
            match spec_try_uint_seq(
                *self,
                self.tag_type == TagType::SLONG8,
                TiffError::FormatError(
                    TiffFormatError::InconsistentSizesEncountered(self.spec_summary()),
                ),
            ) {
                Ok(s) => r matches Ok(v) && v@.len() == s.len() && (forall|j: int|
                    0 <= j < s.len() ==> v@[j] as int == as_signed(s[j], 8)),
                Err(e) => r == Err::<Vec<i64>, TiffError>(e),
            },
    {
        match self.vec_guard() {
            Ok(_) => (),
            Err(e) => {
                return Err(e);
            },
        };
        let type_ok = match self.tag_type {
            TagType::SLONG8 => true,
            _ => false,
        };
        if !type_ok {
            return Err(TiffError::FormatError(TiffFormatError::InconsistentSizesEncountered(
                self.summary(),
            )));
        }
        let w = self.tag_type.size();
        let cnt = self.count as usize;
        let mut out: Vec<i64> = Vec::new();
        let mut i: usize = 0;
        while i < cnt
            invariant
                i <= cnt,
                cnt == self.count,
                w == 8,
                w == tag_type_size(self.tag_type),
                self.data@.len() == cnt * w,
                out@.len() == i,
                forall|j: int|
                    0 <= j < i ==> out@[j] as int == as_signed(
                        uint_elem(self.data@, w as nat, j),
                        8,
                    ),
            decreases cnt - i,
        {
            proof {
                assert((i + 1) * w <= cnt * w) by (nonlinear_arith)
                    requires
                        i < cnt,
                        1 <= w,
                ;
            }
            let u = uint_at(&self.data, w, i);
            let s: i64 = if u < 0x8000_0000_0000_0000u64 {
                u as i64
            } else {
                ((u as i128) - 2 * (0x8000_0000_0000_0000u64 as i128)) as i64
            };
            out.push(s);
            i = i + 1;
        }
        Ok(out)
    }

    /// The bit patterns of all elements of this entry's single-precision floats; only
    /// the exactly matching on-disk type is accepted, and the bits come back
    /// uninterpreted.
    pub fn try_to_f32_bits_vec(&self) -> (r: TiffResult<Vec<u32>>)
        ensures
            match spec_try_uint_seq(
                *self,
                self.tag_type == TagType::FLOAT,
                TiffError::FormatError(
                    TiffFormatError::InconsistentSizesEncountered(self.spec_summary()),
                ),
            ) {
                Ok(s) => r matches Ok(v) && v@.len() == s.len() && (forall|j: int|
                    0 <= j < s.len() ==> v@[j] == s[j] as u32),
                Err(e) => r == Err::<Vec<u32>, TiffError>(e),
            },
    {
        match self.vec_guard() {
            Ok(_) => (),
            Err(e) => {
                return Err(e);
            },
        };
        let type_ok = match self.tag_type {
            TagType::FLOAT => true,
            _ => false,
        };
        if !type_ok {
            return Err(TiffError::FormatError(TiffFormatError::InconsistentSizesEncountered(
                self.summary(),
            )));
        }
        let w = self.tag_type.size();
        let cnt = self.count as usize;
        let mut out: Vec<u32> = Vec::new();
        let mut i: usize = 0;
        while i < cnt
            invariant
                i <= cnt,
                cnt == self.count,
                w == tag_type_size(self.tag_type),
                w == 1 || w == 2 || w == 4 || w == 8,
                self.data@.len() == cnt * w,
                out@.len() == i,
                forall|j: int|
                    0 <= j < i ==> out@[j] == uint_elem(self.data@, w as nat, j) as u32,
            decreases cnt - i,
        {
            proof {
                assert((i + 1) * w <= cnt * w) by (nonlinear_arith)
                    requires
                        i < cnt,
                        1 <= w,
                ;
            }
            out.push(uint_at(&self.data, w, i) as u32);
            i = i + 1;
        }
        Ok(out)
    }

    /// The bit patterns of all elements of this entry's double-precision floats; only
    /// the exactly matching on-disk type is accepted, and the bits come back
    /// uninterpreted.
    pub fn try_to_f64_bits_vec(&self) -> (r: TiffResult<Vec<u64>>)
        ensures
            match spec_try_uint_seq(
                *self,
                self.tag_type == TagType::DOUBLE,
                TiffError::FormatError(
                    TiffFormatError::InconsistentSizesEncountered(self.spec_summary()),
                ),
            ) {
                Ok(s) => r matches Ok(v) && v@.len() == s.len() && (forall|j: int|
                    0 <= j < s.len() ==> v@[j] == s[j]),
                Err(e) => r == Err::<Vec<u64>, TiffError>(e),
            },
    {
        match self.vec_guard() {
            Ok(_) => (),
            Err(e) => {
                return Err(e);
            },
        };
        let type_ok = match self.tag_type {
            TagType::DOUBLE => true,
            _ => false,
        };
        if !type_ok {
            return Err(TiffError::FormatError(TiffFormatError::InconsistentSizesEncountered(
                self.summary(),
            )));
        }
        let w = self.tag_type.size();
        let cnt = self.count as usize;
        let mut out: Vec<u64> = Vec::new();
        let mut i: usize = 0;
        while i < cnt
            invariant
                i <= cnt,
                cnt == self.count,
                w == tag_type_size(self.tag_type),
                w == 1 || w == 2 || w == 4 || w == 8,
                self.data@.len() == cnt * w,
                out@.len() == i,
                forall|j: int|
                    0 <= j < i ==> out@[j] == uint_elem(self.data@, w as nat, j),
            decreases cnt - i,
        {
            proof {
                assert((i + 1) * w <= cnt * w) by (nonlinear_arith)
                    requires
                        i < cnt,
                        1 <= w,
                ;
            }
            out.push(uint_at(&self.data, w, i));
            i = i + 1;
        }
        Ok(out)
    }
}

/// Whether every byte is seven-bit ASCII.
pub open spec fn all_ascii(s: Seq<u8>) -> bool {
    forall|i: int| 0 <= i < s.len() ==> s[i] < 128
}

/// The sequence with every trailing NUL byte removed.
pub open spec fn drop_trailing_nuls(s: Seq<u8>) -> Seq<u8>
    decreases s.len(),
{
    if s.len() == 0 {
        s
    } else if s[s.len() - 1] == 0 {
        drop_trailing_nuls(s.drop_last())
    } else {
        s
    }
}

/// The text of an ASCII entry: the terminating NUL, and any further
/// trailing NUL padding, removed.
pub open spec fn trim_nuls(s: Seq<u8>) -> Seq<u8> {
    drop_trailing_nuls(s)
}

/// Removing trailing NULs keeps exactly the prefix up to the last non-NUL.
pub proof fn lemma_drop_trailing_nuls(s: Seq<u8>, end: int)
    requires
        0 <= end <= s.len(),
        forall|k: int| end <= k < s.len() ==> s[k] == 0,
        end > 0 ==> s[end - 1] != 0,
    ensures
        drop_trailing_nuls(s) == s.subrange(0, end),
    decreases s.len(),
{
    if s.len() == 0 {
        assert(s.subrange(0, 0) =~= s);
    } else if end == s.len() {
        assert(s[s.len() - 1] != 0);
        assert(s.subrange(0, end) =~= s);
    } else {
        assert(s[s.len() - 1] == 0);
        let t = s.drop_last();
        assert(t =~= s.subrange(0, s.len() - 1));
        lemma_drop_trailing_nuls(t, end);
        assert(t.subrange(0, end) =~= s.subrange(0, end));
    }
}

/// Result the conversion matrix assigns to a text request: the byte length
/// must equal the count, the type must be character-like, and the bytes must
/// be NUL-terminated seven-bit ASCII; the text comes back with its trailing
/// NUL padding trimmed.
pub open spec fn spec_try_ascii(e: BufferedEntry) -> Result<Seq<u8>, TiffError> {
    if is_reference(e.tag_type) {
        Err(TiffError::UsageError(UsageError::IfdReadIntoEntry))
    } else if e.count > usize::MAX {
        Err(TiffError::IntSizeError)
    } else if e.data@.len() != e.count {
        Err(TiffError::FormatError(TiffFormatError::InconsistentSizesEncountered(e.spec_summary())))
    } else if !(e.tag_type == TagType::ASCII || e.tag_type == TagType::BYTE || e.tag_type
        == TagType::UNDEFINED) {
        Err(TiffError::FormatError(TiffFormatError::AsciiExpected(e.spec_summary())))
    } else if !(all_ascii(e.data@) && e.data@.len() > 0 && e.data@[e.data@.len() - 1] == 0) {
        Err(TiffError::FormatError(TiffFormatError::InvalidTag))
    } else {
        Ok(trim_nuls(e.data@))
    }
}

impl BufferedEntry {
    /// The text this entry holds: NUL-terminated seven-bit ASCII bytes, with
    /// the trailing NUL padding trimmed.
    pub fn try_to_ascii(&self) -> (r: TiffResult<Vec<u8>>)
        ensures
            match spec_try_ascii(*self) {
                Ok(s) => r matches Ok(v) && v@ == s,
                Err(e) => r == Err::<Vec<u8>, TiffError>(e),
            },
    {
        if self.is_reference_type() {
            return Err(TiffError::UsageError(UsageError::IfdReadIntoEntry));
        }
        if self.count > usize::MAX as u64 {
            return Err(TiffError::IntSizeError);
        }
        let n: usize = self.data.len();
        if n as u64 != self.count {
            return Err(TiffError::FormatError(TiffFormatError::InconsistentSizesEncountered(
                self.summary(),
            )));
        }
        match self.tag_type {
            TagType::ASCII | TagType::BYTE | TagType::UNDEFINED => (),
            _ => {
                return Err(TiffError::FormatError(TiffFormatError::AsciiExpected(
                    self.summary(),
                )));
            },
        }
        let mut ascii = true;
        let mut i: usize = 0;
        while i < n
            invariant
                i <= n,
                n == self.data@.len(),
                ascii == (forall|k: int| 0 <= k < i ==> self.data@[k] < 128),
            decreases n - i,
        {
            if self.data[i] >= 128 {
                ascii = false;
            }
            i = i + 1;
        }
        if !ascii || n == 0 || self.data[n - 1] != 0 {
            return Err(TiffError::FormatError(TiffFormatError::InvalidTag));
        }
        let mut end: usize = n;
        while end > 0 && self.data[end - 1] == 0
            invariant
                0 <= end <= n,
                n == self.data@.len(),
                forall|k: int| end <= k < n ==> self.data@[k] == 0,
            decreases end,
        {
            end = end - 1;
        }
        let mut out: Vec<u8> = Vec::new();
        let mut j: usize = 0;
        while j < end
            invariant
                j <= end <= n,
                n == self.data@.len(),
                out@ =~= self.data@.subrange(0, j as int),
            decreases end - j,
        {
            out.push(self.data[j]);
            proof {
                assert(out@ =~= self.data@.subrange(0, j + 1));
            }
            j = j + 1;
        }
        proof {
            lemma_drop_trailing_nuls(self.data@, end as int);
        }
        Ok(out)
    }
}

/// Read the `i`-th element of `data` as an unsigned integer of width `w`.
pub fn uint_at(data: &Vec<u8>, w: usize, i: usize) -> (r: u64)
    requires
        w == 1 || w == 2 || w == 4 || w == 8,
        (i + 1) * w <= data@.len(),
    ensures
        r == uint_elem(data@, w as nat, i as int),
{
    let n: usize = data.len();
    if w == 1 {
        proof {
            assert(i + 1 <= n) by (nonlinear_arith)
                requires
                    (i + 1) * w <= n,
                    w == 1,
                    i >= 0,
            ;
        }
        data[i] as u64
    } else if w == 2 {
        proof {
            assert(2 * i + 2 <= n) by (nonlinear_arith)
                requires
                    (i + 1) * w <= n,
                    w == 2,
                    i >= 0,
            ;
        }
        let base: usize = 2 * i;
        data[base] as u64 + 0x100 * (data[base + 1] as u64)
    } else if w == 4 {
        proof {
            assert(4 * i + 4 <= n) by (nonlinear_arith)
                requires
                    (i + 1) * w <= n,
                    w == 4,
                    i >= 0,
            ;
        }
        let base: usize = 4 * i;
        data[base] as u64 + 0x100 * (data[base + 1] as u64) + 0x1_0000 * (data[base + 2] as u64)
            + 0x100_0000 * (data[base + 3] as u64)
    } else {
        proof {
            assert(8 * i + 8 <= n) by (nonlinear_arith)
                requires
                    (i + 1) * w <= n,
                    w == 8,
                    i >= 0,
            ;
        }
        let base: usize = 8 * i;
        data[base] as u64 + 0x100 * (data[base + 1] as u64) + 0x1_0000 * (data[base + 2] as u64)
            + 0x100_0000 * (data[base + 3] as u64) + 0x1_0000_0000 * (data[base + 4] as u64)
            + 0x100_0000_0000 * (data[base + 5] as u64) + 0x1_0000_0000_0000 * (data[base + 6] as u64)
            + 0x100_0000_0000_0000 * (data[base + 7] as u64)
    }
}


/// Threshold law: a record decodes inline exactly when its payload fits
/// the fixed value field (four bytes classic, eight bytes for the larger
/// format) and its type is not a directory reference; a wider payload, or
/// a reference of any size, comes back as an offset descriptor.
pub proof fn lemma_inline_threshold(data: Seq<u8>, pos: int, order: ByteOrder, bigtiff: bool)
    ensures
        match spec_entry_decode(data, pos, order, bigtiff) {
            Ok(IfdEntryView::Value(be)) => !spec_deferred(
                be.tag_type,
                be.count * tag_type_size(be.tag_type),
                bigtiff,
            ) && be.count * tag_type_size(be.tag_type) <= field_width(bigtiff),
            Ok(IfdEntryView::Offset { tag_type, count, offset }) => spec_deferred(
                tag_type,
                count * tag_type_size(tag_type),
                bigtiff,
            ),
            Err(_) => true,
        },
{
}

} // verus!

verus! {

/// The mathematical shape of a buffered entry.
pub struct BufferedEntryView {
    pub tag_type: TagType,
    pub count: u64,
    pub data: Seq<u8>,
}

impl View for BufferedEntry {
    type V = BufferedEntryView;

    open spec fn view(&self) -> BufferedEntryView {
        BufferedEntryView { tag_type: self.tag_type, count: self.count, data: self.data@ }
    }
}

/// One directory entry: either decoded inline, or deferred behind the
/// offset its bytes live at.
#[derive(Debug)]
pub enum IfdEntry {
    Offset { tag_type: TagType, count: u64, offset: u64 },
    Value(BufferedEntry),
}

/// The mathematical shape of a directory entry.
pub enum IfdEntryView {
    Offset { tag_type: TagType, count: u64, offset: u64 },
    Value(BufferedEntryView),
}

impl View for IfdEntry {
    type V = IfdEntryView;

    open spec fn view(&self) -> IfdEntryView {
        match self {
            IfdEntry::Offset { tag_type, count, offset } => IfdEntryView::Offset {
                tag_type: *tag_type,
                count: *count,
                offset: *offset,
            },
            IfdEntry::Value(be) => IfdEntryView::Value(be@),
        }
    }
}

impl Clone for IfdEntry {
    /// A clone keeps the variant and every field.
    fn clone(&self) -> (r: Self)
        ensures
            r@ == self@,
    {
        match self {
            IfdEntry::Offset { tag_type, count, offset } => IfdEntry::Offset {
                tag_type: *tag_type,
                count: *count,
                offset: *offset,
            },
            IfdEntry::Value(be) => IfdEntry::Value(be.clone()),
        }
    }
}

impl vstd::std_specs::cmp::PartialEqSpecImpl for IfdEntry {
    open spec fn obeys_eq_spec() -> bool {
        true
    }

    open spec fn eq_spec(&self, other: &Self) -> bool {
        self@ == other@
    }
}

impl PartialEq for IfdEntry {
    /// Two entries are equal when their shapes agree.
    fn eq(&self, other: &Self) -> (r: bool) {
        match (self, other) {
            (
                IfdEntry::Offset { tag_type: t1, count: c1, offset: o1 },
                IfdEntry::Offset { tag_type: t2, count: c2, offset: o2 },
            ) => t1 == t2 && c1 == c2 && o1 == o2,
            (IfdEntry::Value(a), IfdEntry::Value(b)) => a == b,
            _ => false,
        }
    }
}

/// Width of an entry record's count and value-or-offset fields.
pub open spec fn field_width(bigtiff: bool) -> int {
    if bigtiff {
        8
    } else {
        4
    }
}

/// Byte length of an entry record after its tag: the type code, the count,
/// and the fixed value-or-offset field.
pub open spec fn entry_body_len(bigtiff: bool) -> int {
    2 + 2 * field_width(bigtiff)
}

/// Whether an entry's bytes are deferred behind an offset: a directory
/// reference always is, and so is any payload wider than the value field.
pub open spec fn spec_deferred(t: TagType, byte_len: int, bigtiff: bool) -> bool {
    ||| !bigtiff && byte_len > 4
    ||| byte_len > 8
    ||| t == TagType::IFD
    ||| t == TagType::IFD8
}

/// The decode of one entry record starting at `pos` (at its type code, after
/// its tag): the type is looked up, the count read, and the payload either
/// decoded inline in canonical order or deferred behind its offset. The
/// record's full fixed width is consumed whatever the branch.
pub open spec fn spec_entry_decode(data: Seq<u8>, pos: int, order: ByteOrder, bigtiff: bool)
    -> Result<IfdEntryView, TiffError> {
    let fw = field_width(bigtiff);
    if pos + 2 > data.len() {
        Err(TiffError::IoError)
    } else {
        let code = u16_of(data.subrange(pos, pos + 2), order);
        match crate::tags::spec_tag_type_from_u16(code) {
            Option::None => Err(
                TiffError::FormatError(TiffFormatError::InvalidTagValueType(code)),
            ),
            Some(t) => {
                if pos + 2 + fw > data.len() {
                    Err(TiffError::IoError)
                } else {
                    let count: u64 = if bigtiff {
                        u64_of(data.subrange(pos + 2, pos + 10), order)
                    } else {
                        u32_of(data.subrange(pos + 2, pos + 6), order) as u64
                    };
                    let byte_len = count * tag_type_size(t);
                    if byte_len > u64::MAX {
                        Err(TiffError::LimitsExceeded)
                    } else if pos + 2 + 2 * fw > data.len() {
                        Err(TiffError::IoError)
                    } else if spec_deferred(t, byte_len, bigtiff) {
                        let offset: u64 = if bigtiff {
                            u64_of(data.subrange(pos + 10, pos + 18), order)
                        } else {
                            u32_of(data.subrange(pos + 6, pos + 10), order) as u64
                        };
                        Ok(IfdEntryView::Offset { tag_type: t, count, offset })
                    } else {
                        Ok(
                            IfdEntryView::Value(
                                BufferedEntryView {
                                    tag_type: t,
                                    count,
                                    data: crate::util::normalized(
                                        data.subrange(pos + 2 + fw, pos + 2 + fw + byte_len),
                                        order,
                                        tag_type_primitive_size(t),
                                    ),
                                },
                            ),
                        )
                    }
                }
            },
        }
    }
}

impl IfdEntry {
    /// Decode one entry record from the reader, whose cursor stands at the
    /// record's type code (after its tag).
    ///
    /// A payload that fits the value field decodes inline in canonical
    /// order; a wider payload, or a directory reference of any size, is
    /// deferred behind its offset. The record's full fixed width is
    /// consumed either way.
    pub fn from_reader(r: &mut crate::reader::EndianReader, bigtiff: bool) -> (res: TiffResult<
        IfdEntry,
    >)
        requires
            old(r).wf(),
        ensures
            final(r).wf(),
            final(r).spec_data() == old(r).spec_data(),
            final(r).byte_order == old(r).byte_order,
            match spec_entry_decode(
                old(r).spec_data(),
                old(r).spec_pos(),
                old(r).byte_order,
                bigtiff,
            ) {
                Ok(view) => res matches Ok(e) && e@ == view && final(r).spec_pos() == old(
                    r,
                ).spec_pos() + entry_body_len(bigtiff),
                Err(err) => res == Err::<IfdEntry, TiffError>(err),
            },
    {
        let code = match r.read_u16() {
            Ok(c) => c,
            Err(e) => {
                return Err(e);
            },
        };
        let tag_type = match TagType::from_u16(code) {
            Some(t) => t,
            Option::None => {
                return Err(TiffError::FormatError(TiffFormatError::InvalidTagValueType(code)));
            },
        };
        let count: u64 = if bigtiff {
            match r.read_u64() {
                Ok(c) => c,
                Err(e) => {
                    return Err(e);
                },
            }
        } else {
            match r.read_u32() {
                Ok(c) => c as u64,
                Err(e) => {
                    return Err(e);
                },
            }
        };
        let w = tag_type.size();
        let byte_len_wide: u128 = (count as u128) * (w as u128);
        if byte_len_wide > u64::MAX as u128 {
            return Err(TiffError::LimitsExceeded);
        }
        let byte_len: u64 = byte_len_wide as u64;
        let fw: usize = if bigtiff {
            8
        } else {
            4
        };
        let deferred = (!bigtiff && byte_len > 4) || byte_len > 8 || match tag_type {
            TagType::IFD | TagType::IFD8 => true,
            _ => false,
        };
        if deferred {
            let offset: u64 = if bigtiff {
                match r.read_u64() {
                    Ok(o) => o,
                    Err(e) => {
                        return Err(e);
                    },
                }
            } else {
                match r.read_u32() {
                    Ok(o) => o as u64,
                    Err(e) => {
                        return Err(e);
                    },
                }
            };
            Ok(IfdEntry::Offset { tag_type, count, offset })
        } else {
            let nb: usize = byte_len as usize;
            let mut raw = match r.read_exact(nb) {
                Ok(v) => v,
                Err(e) => {
                    return Err(e);
                },
            };
            match r.read_exact(fw - nb) {
                Ok(_) => (),
                Err(e) => {
                    return Err(e);
                },
            };
            let prim = tag_type.primitive_size();
            crate::util::fix_endianness(&mut raw, r.byte_order(), 8 * (prim as u8));
            proof {
                assert(crate::util::group_width(((8 * tag_type_primitive_size(tag_type)) as u8))
                    == tag_type_primitive_size(tag_type));
            }
            Ok(IfdEntry::Value(BufferedEntry { tag_type, count, data: raw }))
        }
    }
}

/// Type-safety law of the scalar conversion matrix: a request succeeds
/// exactly when the entry holds a single element whose numeric class
/// matches the request and whose value fits the target; every other pair
/// of on-disk type and requested form yields the specific error the
/// matrix names — a size mismatch, a class mismatch, or an out-of-range
/// value — and never a panic.
pub proof fn lemma_scalar_conversion_type_safety(e: BufferedEntry, umax: u64, smin: int, smax: int)
    ensures
        spec_try_unsigned(e, umax) is Ok <==> (!is_reference(e.tag_type) && e.data@.len()
            == tag_type_size(e.tag_type) && reads_unsigned(e.tag_type) && uint_elem(
            e.data@,
            tag_type_size(e.tag_type),
            0,
        ) <= umax),
        spec_try_signed(e, smin, smax) is Ok <==> (!is_reference(e.tag_type) && e.data@.len()
            == tag_type_size(e.tag_type) && reads_signed(e.tag_type) && smin <= as_signed(
            uint_elem(e.data@, tag_type_size(e.tag_type), 0),
            tag_type_size(e.tag_type),
        ) && as_signed(
            uint_elem(e.data@, tag_type_size(e.tag_type), 0),
            tag_type_size(e.tag_type),
        ) <= smax),
        spec_try_float_bits(e) is Ok <==> (!is_reference(e.tag_type) && e.data@.len()
            == tag_type_size(e.tag_type) && (e.tag_type == TagType::FLOAT || e.tag_type
            == TagType::DOUBLE)),
        is_reference(e.tag_type) ==> spec_try_unsigned(e, umax) == Err::<u64, TiffError>(
            TiffError::UsageError(UsageError::IfdReadIntoEntry),
        ) && spec_try_signed(e, smin, smax) == Err::<int, TiffError>(
            TiffError::UsageError(UsageError::IfdReadIntoEntry),
        ) && spec_try_float_bits(e) == Err::<FloatBits, TiffError>(
            TiffError::UsageError(UsageError::IfdReadIntoEntry),
        ),
        !is_reference(e.tag_type) && e.data@.len() != tag_type_size(e.tag_type)
            ==> spec_try_unsigned(e, umax) == Err::<u64, TiffError>(
            TiffError::FormatError(TiffFormatError::InconsistentSizesEncountered(e.spec_summary())),
        ),
        !is_reference(e.tag_type) && e.data@.len() == tag_type_size(e.tag_type) && !reads_unsigned(
            e.tag_type,
        ) ==> spec_try_unsigned(e, umax) == Err::<u64, TiffError>(
            TiffError::FormatError(TiffFormatError::UnsignedIntegerExpected(e.spec_summary())),
        ),
        !is_reference(e.tag_type) && e.data@.len() == tag_type_size(e.tag_type) && !reads_signed(
            e.tag_type,
        ) ==> spec_try_signed(e, smin, smax) == Err::<int, TiffError>(
            TiffError::FormatError(TiffFormatError::SignedIntegerExpected(e.spec_summary())),
        ),
        !is_reference(e.tag_type) && e.data@.len() == tag_type_size(e.tag_type) && !(e.tag_type
            == TagType::FLOAT || e.tag_type == TagType::DOUBLE) ==> spec_try_float_bits(e)
            == Err::<FloatBits, TiffError>(
            TiffError::FormatError(TiffFormatError::FloatExpected(e.spec_summary())),
        ),
{
}


} // verus!
