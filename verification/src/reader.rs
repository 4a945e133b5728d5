//! Byte-order-aware reading of fixed-width primitives from a byte buffer.

use vstd::prelude::*;

use crate::entry::as_signed;
use crate::error::{TiffError, TiffResult};
use crate::{u16_of, u32_of, u64_of, ByteOrder};

verus! {

broadcast use vstd::std_specs::vec::group_vec_axioms;

/// A cursor over a byte buffer that decodes fixed-width primitives under a
/// configured byte order, consuming exactly as many bytes as each primitive
/// needs and failing with an I/O error on a short read.
pub struct EndianReader {
    pub data: Vec<u8>,
    pub pos: usize,
    pub byte_order: ByteOrder,
}

impl EndianReader {
    /// The bytes this reader walks.
    pub open spec fn spec_data(self) -> Seq<u8> {
        self.data@
    }

    /// The cursor: how many bytes were consumed.
    pub open spec fn spec_pos(self) -> int {
        self.pos as int
    }

    /// A reader is well formed while its cursor is inside the buffer.
    pub open spec fn wf(self) -> bool {
        self.pos <= self.data@.len()
    }

    /// Wrap a buffer, with the cursor at its start.
    pub fn wrap(data: Vec<u8>, byte_order: ByteOrder) -> (r: Self)
        ensures
            r.spec_data() == data@,
            r.spec_pos() == 0,
            r.byte_order == byte_order,
            r.wf(),
    {
        EndianReader { data, pos: 0, byte_order }
    }

    /// The byte order this reader decodes under.
    pub fn byte_order(&self) -> (r: ByteOrder)
        ensures
            r == self.byte_order,
    {
        self.byte_order
    }

    /// Read one byte.
    pub fn read_u8(&mut self) -> (r: TiffResult<u8>)
        requires
            old(self).wf(),
        ensures
            final(self).wf(),
            final(self).spec_data() == old(self).spec_data(),
            final(self).byte_order == old(self).byte_order,
            match r {
                Ok(v) => {
                    &&& old(self).spec_pos() + 1 <= old(self).spec_data().len()
                    &&& final(self).spec_pos() == old(self).spec_pos() + 1
                    &&& v == old(self).spec_data()[old(self).spec_pos()]
                },
                Err(e) => {
                    &&& old(self).spec_pos() + 1 > old(self).spec_data().len()
                    &&& e == TiffError::IoError
                    &&& final(self).spec_pos() == old(self).spec_pos()
                },
            },
    {
        if self.pos < self.data.len() {
            let v = self.data[self.pos];
            self.pos = self.pos + 1;
            Ok(v)
        } else {
            Err(TiffError::IoError)
        }
    }

    /// Read one signed byte.
    pub fn read_i8(&mut self) -> (r: TiffResult<i8>)
        requires
            old(self).wf(),
        ensures
            final(self).wf(),
            final(self).spec_data() == old(self).spec_data(),
            final(self).byte_order == old(self).byte_order,
            match r {
                Ok(v) => {
                    &&& old(self).spec_pos() + 1 <= old(self).spec_data().len()
                    &&& final(self).spec_pos() == old(self).spec_pos() + 1
                    &&& v as int == as_signed(
                        old(self).spec_data()[old(self).spec_pos()] as u64,
                        1,
                    )
                },
                Err(e) => {
                    &&& old(self).spec_pos() + 1 > old(self).spec_data().len()
                    &&& e == TiffError::IoError
                    &&& final(self).spec_pos() == old(self).spec_pos()
                },
            },
    {
        match self.read_u8() {
            Ok(u) => {
                let v: i8 = if u < 0x80 {
                    u as i8
                } else {
                    (u as i16 - 0x100) as i8
                };
                Ok(v)
            },
            Err(e) => Err(e),
        }
    }

    /// Read a two-byte unsigned integer under this reader's byte order.
    pub fn read_u16(&mut self) -> (r: TiffResult<u16>)
        requires
            old(self).wf(),
        ensures
            final(self).wf(),
            final(self).spec_data() == old(self).spec_data(),
            final(self).byte_order == old(self).byte_order,
            match r {
                Ok(v) => {
                    &&& old(self).spec_pos() + 2 <= old(self).spec_data().len()
                    &&& final(self).spec_pos() == old(self).spec_pos() + 2
                    &&& v == u16_of(
                        old(self).spec_data().subrange(
                            old(self).spec_pos(),
                            old(self).spec_pos() + 2,
                        ),
                        old(self).byte_order,
                    )
                },
                Err(e) => {
                    &&& old(self).spec_pos() + 2 > old(self).spec_data().len()
                    &&& e == TiffError::IoError
                    &&& final(self).spec_pos() == old(self).spec_pos()
                },
            },
    {
        if self.data.len() - self.pos < 2 {
            return Err(TiffError::IoError);
        }
        let b0 = self.data[self.pos];
        let b1 = self.data[self.pos + 1];
        let v = self.byte_order.decode_u16(b0, b1);
        self.pos = self.pos + 2;
        proof {
            assert(self.data@.subrange(self.pos - 2, self.pos as int) =~= seq![b0, b1]);
        }
        Ok(v)
    }

    /// Read a two-byte signed integer under this reader's byte order.
    pub fn read_i16(&mut self) -> (r: TiffResult<i16>)
        requires
            old(self).wf(),
        ensures
            final(self).wf(),
            final(self).spec_data() == old(self).spec_data(),
            final(self).byte_order == old(self).byte_order,
            match r {
                Ok(v) => {
                    &&& old(self).spec_pos() + 2 <= old(self).spec_data().len()
                    &&& final(self).spec_pos() == old(self).spec_pos() + 2
                    &&& v as int == as_signed(
                        u16_of(
                            old(self).spec_data().subrange(
                                old(self).spec_pos(),
                                old(self).spec_pos() + 2,
                            ),
                            old(self).byte_order,
                        ) as u64,
                        2,
                    )
                },
                Err(e) => {
                    &&& old(self).spec_pos() + 2 > old(self).spec_data().len()
                    &&& e == TiffError::IoError
                    &&& final(self).spec_pos() == old(self).spec_pos()
                },
            },
    {
        match self.read_u16() {
            Ok(u) => {
                let v: i16 = if u < 0x8000 {
                    u as i16
                } else {
                    (u as i32 - 0x1_0000) as i16
                };
                Ok(v)
            },
            Err(e) => Err(e),
        }
    }

    /// Read a four-byte unsigned integer under this reader's byte order.
    pub fn read_u32(&mut self) -> (r: TiffResult<u32>)
        requires
            old(self).wf(),
        ensures
            final(self).wf(),
            final(self).spec_data() == old(self).spec_data(),
            final(self).byte_order == old(self).byte_order,
            match r {
                Ok(v) => {
                    &&& old(self).spec_pos() + 4 <= old(self).spec_data().len()
                    &&& final(self).spec_pos() == old(self).spec_pos() + 4
                    &&& v == u32_of(
                        old(self).spec_data().subrange(
                            old(self).spec_pos(),
                            old(self).spec_pos() + 4,
                        ),
                        old(self).byte_order,
                    )
                },
                Err(e) => {
                    &&& old(self).spec_pos() + 4 > old(self).spec_data().len()
                    &&& e == TiffError::IoError
                    &&& final(self).spec_pos() == old(self).spec_pos()
                },
            },
    {
        if self.data.len() - self.pos < 4 {
            return Err(TiffError::IoError);
        }
        let b = [
            self.data[self.pos],
            self.data[self.pos + 1],
            self.data[self.pos + 2],
            self.data[self.pos + 3],
        ];
        let v = self.byte_order.decode_u32(b);
        self.pos = self.pos + 4;
        proof {
            assert(self.data@.subrange(self.pos - 4, self.pos as int) =~= b@);
        }
        Ok(v)
    }

    /// Read a four-byte signed integer under this reader's byte order.
    pub fn read_i32(&mut self) -> (r: TiffResult<i32>)
        requires
            old(self).wf(),
        ensures
            final(self).wf(),
            final(self).spec_data() == old(self).spec_data(),
            final(self).byte_order == old(self).byte_order,
            match r {
                Ok(v) => {
                    &&& old(self).spec_pos() + 4 <= old(self).spec_data().len()
                    &&& final(self).spec_pos() == old(self).spec_pos() + 4
                    &&& v as int == as_signed(
                        u32_of(
                            old(self).spec_data().subrange(
                                old(self).spec_pos(),
                                old(self).spec_pos() + 4,
                            ),
                            old(self).byte_order,
                        ) as u64,
                        4,
                    )
                },
                Err(e) => {
                    &&& old(self).spec_pos() + 4 > old(self).spec_data().len()
                    &&& e == TiffError::IoError
                    &&& final(self).spec_pos() == old(self).spec_pos()
                },
            },
    {
        match self.read_u32() {
            Ok(u) => {
                let v: i32 = if u < 0x8000_0000 {
                    u as i32
                } else {
                    (u as i64 - 0x1_0000_0000) as i32
                };
                Ok(v)
            },
            Err(e) => Err(e),
        }
    }

    /// Read an eight-byte unsigned integer under this reader's byte order.
    pub fn read_u64(&mut self) -> (r: TiffResult<u64>)
        requires
            old(self).wf(),
        ensures
            final(self).wf(),
            final(self).spec_data() == old(self).spec_data(),
            final(self).byte_order == old(self).byte_order,
            match r {
                Ok(v) => {
                    &&& old(self).spec_pos() + 8 <= old(self).spec_data().len()
                    &&& final(self).spec_pos() == old(self).spec_pos() + 8
                    &&& v == u64_of(
                        old(self).spec_data().subrange(
                            old(self).spec_pos(),
                            old(self).spec_pos() + 8,
                        ),
                        old(self).byte_order,
                    )
                },
                Err(e) => {
                    &&& old(self).spec_pos() + 8 > old(self).spec_data().len()
                    &&& e == TiffError::IoError
                    &&& final(self).spec_pos() == old(self).spec_pos()
                },
            },
    {
        if self.data.len() - self.pos < 8 {
            return Err(TiffError::IoError);
        }
        let b = [
            self.data[self.pos],
            self.data[self.pos + 1],
            self.data[self.pos + 2],
            self.data[self.pos + 3],
            self.data[self.pos + 4],
            self.data[self.pos + 5],
            self.data[self.pos + 6],
            self.data[self.pos + 7],
        ];
        let v = self.byte_order.decode_u64(b);
        self.pos = self.pos + 8;
        proof {
            assert(self.data@.subrange(self.pos - 8, self.pos as int) =~= b@);
        }
        Ok(v)
    }

    /// Read an eight-byte signed integer under this reader's byte order.
    pub fn read_i64(&mut self) -> (r: TiffResult<i64>)
        requires
            old(self).wf(),
        ensures
            final(self).wf(),
            final(self).spec_data() == old(self).spec_data(),
            final(self).byte_order == old(self).byte_order,
            match r {
                Ok(v) => {
                    &&& old(self).spec_pos() + 8 <= old(self).spec_data().len()
                    &&& final(self).spec_pos() == old(self).spec_pos() + 8
                    &&& v as int == as_signed(
                        u64_of(
                            old(self).spec_data().subrange(
                                old(self).spec_pos(),
                                old(self).spec_pos() + 8,
                            ),
                            old(self).byte_order,
                        ),
                        8,
                    )
                },
                Err(e) => {
                    &&& old(self).spec_pos() + 8 > old(self).spec_data().len()
                    &&& e == TiffError::IoError
                    &&& final(self).spec_pos() == old(self).spec_pos()
                },
            },
    {
        match self.read_u64() {
            Ok(u) => {
                let v: i64 = if u < 0x8000_0000_0000_0000 {
                    u as i64
                } else {
                    ((u as i128) - 0x1_0000_0000_0000_0000i128) as i64
                };
                Ok(v)
            },
            Err(e) => Err(e),
        }
    }

    /// Read exactly `n` raw bytes, failing without consuming anything when
    /// fewer remain.
    pub fn read_exact(&mut self, n: usize) -> (r: TiffResult<Vec<u8>>)
        requires
            old(self).wf(),
        ensures
            final(self).wf(),
            final(self).spec_data() == old(self).spec_data(),
            final(self).byte_order == old(self).byte_order,
            match r {
                Ok(v) => {
                    &&& old(self).spec_pos() + n <= old(self).spec_data().len()
                    &&& final(self).spec_pos() == old(self).spec_pos() + n
                    &&& v@ == old(self).spec_data().subrange(
                        old(self).spec_pos(),
                        old(self).spec_pos() + n,
                    )
                },
                Err(e) => {
                    &&& old(self).spec_pos() + n > old(self).spec_data().len()
                    &&& e == TiffError::IoError
                    &&& final(self).spec_pos() == old(self).spec_pos()
                },
            },
    {
        if n > self.data.len() - self.pos {
            return Err(TiffError::IoError);
        }
        let mut out: Vec<u8> = Vec::new();
        let mut i: usize = 0;
        while i < n
            invariant
                i <= n,
                self.pos + n <= usize::MAX,
                self.pos + n <= self.data@.len(),
                out@ =~= self.data@.subrange(self.pos as int, self.pos + i),
            decreases n - i,
        {
            let idx: usize = self.pos + i;
            out.push(self.data[idx]);
            proof {
                assert(out@ =~= self.data@.subrange(self.pos as int, self.pos + i + 1));
            }
            i = i + 1;
        }
        self.pos = self.pos + n;
        Ok(out)
    }
}

} // verus!
