//! Chunked lazy-loading cache for tag-referenced arrays too large to buffer
//! eagerly.
//!
//! Each chunk index moves through `NotRequested`, `Pending` and `Loaded`,
//! in that order. A lookup on an untouched chunk claims the fetch by moving
//! it to `Pending` and hands back the byte range to read; every later
//! lookup of that chunk waits instead, so a given chunk is fetched at most
//! once. Completing a fetch stores the chunk for the cache's lifetime;
//! failing it releases the claim so the next lookup may retry. The callers
//! own the actual reads and any blocking or wakeups around them.

use vstd::prelude::*;

use crate::entry::{spec_get_u64, BufferedEntry};
use crate::error::{TiffError, TiffResult, UsageError};
use crate::tags::{tag_type_size, TagType};

verus! {

broadcast use vstd::std_specs::vec::group_vec_axioms;

/// Loading state of one cache chunk.
#[derive(Debug)]
pub enum ChunkState {
    /// Nobody asked for this chunk yet.
    NotRequested,
    /// Exactly one caller is fetching this chunk; everyone else waits.
    Pending,
    /// The chunk's bytes, kept for the cache's lifetime.
    Loaded(BufferedEntry),
}

/// What a lookup tells its caller to do next.
#[derive(Debug)]
pub enum MaybePartialIndex<T> {
    /// The element was decoded from a loaded chunk.
    Ready(T),
    /// The caller owns the fetch: read `count` bytes at `offset` from the
    /// backing store into `buf`, then complete or fail the chunk.
    NeedRead { offset: u64, count: u64, buf: Vec<u8> },
    /// Another caller is fetching this chunk; wait for it, then look the
    /// index up again.
    Pending(u64),
}

/// A lazily loaded array of `count` elements of one tag type, starting at
/// `offset` in the backing store and fetched `chunk_size` elements at a
/// time.
#[derive(Debug)]
pub struct ChunkedEntryCache {
    pub tag_type: TagType,
    pub count: u64,
    pub offset: u64,
    pub chunk_size: usize,
    pub chunks: Vec<ChunkState>,
}

impl ChunkedEntryCache {
    /// How many chunks cover the array.
    pub open spec fn spec_num_chunks(self) -> int {
        (self.count + self.chunk_size - 1) as int / self.chunk_size as int
    }

    /// The chunk an element index falls into.
    pub open spec fn spec_chunk_of(self, index: int) -> int {
        index / self.chunk_size as int
    }

    /// How many elements a chunk holds: a full `chunk_size`, except for the
    /// final chunk, which holds what remains.
    pub open spec fn spec_chunk_elems(self, chunk: int) -> int {
        if self.count - chunk * self.chunk_size < self.chunk_size {
            self.count - chunk * self.chunk_size
        } else {
            self.chunk_size as int
        }
    }

    /// The byte offset a chunk's fetch starts at.
    pub open spec fn spec_chunk_byte_offset(self, chunk: int) -> int {
        self.offset + chunk * self.chunk_size * tag_type_size(self.tag_type)
    }

    /// How many bytes a chunk's fetch covers.
    pub open spec fn spec_chunk_byte_len(self, chunk: int) -> int {
        self.spec_chunk_elems(chunk) * tag_type_size(self.tag_type)
    }

    /// A cache is well formed when chunks are non-empty and one state is
    /// tracked for every chunk the element count needs.
    pub open spec fn wf(self) -> bool {
        &&& self.chunk_size >= 1
        &&& self.chunks@.len() == self.spec_num_chunks()
    }

    /// A fresh cache: every chunk still `NotRequested`.
    ///
    /// Fails with `LimitsExceeded` when the chunk table itself could not be
    /// addressed.
    pub fn new(tag_type: TagType, count: u64, offset: u64, chunk_size: usize) -> (r: TiffResult<
        Self,
    >)
        requires
            chunk_size >= 1,
        ensures
            match r {
                Ok(c) => {
                    &&& c.tag_type == tag_type
                    &&& c.count == count
                    &&& c.offset == offset
                    &&& c.chunk_size == chunk_size
                    &&& c.wf()
                    &&& forall|i: int|
                        0 <= i < c.chunks@.len() ==> c.chunks@[i] is NotRequested
                },
                Err(e) => e == TiffError::LimitsExceeded,
            },
    {
        let n_wide: u128 = (count as u128 + chunk_size as u128 - 1) / (chunk_size as u128);
        if n_wide > usize::MAX as u128 {
            return Err(TiffError::LimitsExceeded);
        }
        let n: usize = n_wide as usize;
        let mut chunks: Vec<ChunkState> = Vec::new();
        let mut i: usize = 0;
        while i < n
            invariant
                i <= n,
                chunks@.len() == i,
                forall|j: int| 0 <= j < i ==> chunks@[j] is NotRequested,
            decreases n - i,
        {
            chunks.push(ChunkState::NotRequested);
            i = i + 1;
        }
        Ok(ChunkedEntryCache { tag_type, count, offset, chunk_size, chunks })
    }

    /// Look one element up.
    ///
    /// A loaded chunk answers at once; a pending chunk tells the caller to
    /// wait; an untouched chunk is claimed for the caller, who must fetch
    /// the returned byte range and then complete or fail the chunk. No
    /// lookup ever claims a chunk that is already claimed or loaded, so
    /// each chunk's fetch is issued exactly once between claims.
    pub fn get_u64(&mut self, index: usize) -> (r: TiffResult<MaybePartialIndex<u64>>)
        requires
            old(self).wf(),
        ensures
            final(self).wf(),
            final(self).tag_type == old(self).tag_type,
            final(self).count == old(self).count,
            final(self).offset == old(self).offset,
            final(self).chunk_size == old(self).chunk_size,
            index >= old(self).count ==> r == Err::<MaybePartialIndex<u64>, TiffError>(
                TiffError::LimitsExceeded,
            ) && final(self).chunks@ == old(self).chunks@,
            index < old(self).count ==> {
                let chunk = old(self).spec_chunk_of(index as int);
                let sub = index as int % old(self).chunk_size as int;
                match old(self).chunks@[chunk] {
                    ChunkState::Loaded(be) => final(self).chunks@ == old(self).chunks@ && match
                        spec_get_u64(be, sub) {
                        Ok(v) => r == Ok::<MaybePartialIndex<u64>, TiffError>(
                            MaybePartialIndex::Ready(v),
                        ),
                        Err(e) => r == Err::<MaybePartialIndex<u64>, TiffError>(e),
                    },
                    ChunkState::Pending => final(self).chunks@ == old(self).chunks@ && r == Ok::<
                        MaybePartialIndex<u64>,
                        TiffError,
                    >(MaybePartialIndex::Pending(chunk as u64)),
                    ChunkState::NotRequested => {
                        if old(self).spec_chunk_byte_offset(chunk) + old(self).spec_chunk_byte_len(
                            chunk,
                        ) > u64::MAX {
                            &&& r == Err::<MaybePartialIndex<u64>, TiffError>(
                                TiffError::LimitsExceeded,
                            )
                            &&& final(self).chunks@ == old(self).chunks@
                        } else {
                            &&& final(self).chunks@ == old(self).chunks@.update(
                                chunk,
                                ChunkState::Pending,
                            )
                            &&& r matches Ok(MaybePartialIndex::NeedRead { offset, count, buf })
                            &&& offset == old(self).spec_chunk_byte_offset(chunk)
                            &&& count == old(self).spec_chunk_byte_len(chunk)
                            &&& buf@ == Seq::new(
                                old(self).spec_chunk_byte_len(chunk) as nat,
                                |j: int| 0u8,
                            )
                        }
                    },
                }
            },
    {
        if index as u64 >= self.count {
            return Err(TiffError::LimitsExceeded);
        }
        let chunk: usize = index / self.chunk_size;
        let sub: usize = index % self.chunk_size;
        proof {
            let cs = self.chunk_size as int;
            vstd::arithmetic::div_mod::lemma_fundamental_div_mod(index as int, cs);
            assert(chunk < self.spec_num_chunks()) by (nonlinear_arith)
                requires
                    cs >= 1,
                    chunk == index as int / cs,
                    index < self.count,
                    self.spec_num_chunks() == (self.count + cs - 1) / cs,
                    index as int == cs * chunk + index as int % cs,
                    0 <= index as int % cs < cs,
            ;
        }
        let w = self.tag_type.size();
        let loaded = match &self.chunks[chunk] {
            ChunkState::Loaded(_) => true,
            _ => false,
        };
        if loaded {
            let be = match &self.chunks[chunk] {
                ChunkState::Loaded(b) => b,
                _ => {
                    return Err(TiffError::LimitsExceeded);
                },
            };
            return match be.get_u64(sub) {
                Ok(v) => Ok(MaybePartialIndex::Ready(v)),
                Err(e) => Err(e),
            };
        }
        let pending = match &self.chunks[chunk] {
            ChunkState::Pending => true,
            _ => false,
        };
        if pending {
            return Ok(MaybePartialIndex::Pending(chunk as u64));
        }
        proof {
            assert(chunk * self.chunk_size <= index as int) by (nonlinear_arith)
                requires
                    chunk == index as int / self.chunk_size as int,
                    self.chunk_size >= 1,
                    index >= 0,
                    index as int == self.chunk_size as int * chunk + index as int
                        % self.chunk_size as int,
                    0 <= index as int % self.chunk_size as int,
            ;
        }
        let start: u128 = (chunk as u128) * (self.chunk_size as u128);
        let remaining: u128 = (self.count as u128) - start;
        let elems_wide: u128 = if remaining < self.chunk_size as u128 {
            remaining
        } else {
            self.chunk_size as u128
        };
        proof {
            assert(elems_wide <= u64::MAX as u128);
            assert(start <= index as u128);
            assert(elems_wide as int * (w as int) <= 0xFFFF_FFFF_FFFF_FFFF * 8) by (nonlinear_arith)
                requires
                    0 <= elems_wide as int <= 0xFFFF_FFFF_FFFF_FFFF,
                    0 <= w as int <= 8,
            ;
            assert(start as int * (w as int) <= 0xFFFF_FFFF_FFFF_FFFF * 8) by (nonlinear_arith)
                requires
                    0 <= start as int <= 0xFFFF_FFFF_FFFF_FFFF,
                    0 <= w as int <= 8,
            ;
        }
        let byte_len_wide: u128 = elems_wide * (w as u128);
        let byte_off_wide: u128 = (self.offset as u128) + start * (w as u128);
        if byte_off_wide + byte_len_wide > u64::MAX as u128 {
            return Err(TiffError::LimitsExceeded);
        }
        let mut buf: Vec<u8> = Vec::new();
        let byte_len: u64 = byte_len_wide as u64;
        let mut j: u64 = 0;
        while j < byte_len
            invariant
                j <= byte_len,
                buf@ =~= Seq::new(j as nat, |k: int| 0u8),
            decreases byte_len - j,
        {
            buf.push(0u8);
            j = j + 1;
        }
        self.chunks.set(chunk, ChunkState::Pending);
        proof {
            assert(buf@ =~= Seq::new(
                old(self).spec_chunk_byte_len(old(self).spec_chunk_of(index as int)) as nat,
                |k: int| 0u8,
            ));
        }
        Ok(MaybePartialIndex::NeedRead { offset: byte_off_wide as u64, count: byte_len, buf })
    }

    /// Store a fetched chunk: the chunk must have been claimed and not yet
    /// completed. Every waiter of that chunk may then be woken; they will
    /// all observe this same entry.
    pub fn complete(&mut self, chunk_index: usize, data: BufferedEntry) -> (r: TiffResult<()>)
        requires
            old(self).wf(),
        ensures
            final(self).wf(),
            final(self).tag_type == old(self).tag_type,
            final(self).count == old(self).count,
            final(self).offset == old(self).offset,
            final(self).chunk_size == old(self).chunk_size,
            chunk_index >= old(self).chunks@.len() ==> r == Err::<(), TiffError>(
                TiffError::UsageError(UsageError::InvalidChunkIndex(chunk_index as u32)),
            ) && final(self).chunks@ == old(self).chunks@,
            chunk_index < old(self).chunks@.len() ==> match old(self).chunks@[chunk_index as int] {
                ChunkState::Pending => r == Ok::<(), TiffError>(()) && final(self).chunks@ == old(
                    self,
                ).chunks@.update(chunk_index as int, ChunkState::Loaded(data)),
                _ => r == Err::<(), TiffError>(
                    TiffError::UsageError(UsageError::DuplicateTagData),
                ) && final(self).chunks@ == old(self).chunks@,
            },
    {
        if chunk_index >= self.chunks.len() {
            return Err(TiffError::UsageError(UsageError::InvalidChunkIndex(chunk_index as u32)));
        }
        let is_pending = match &self.chunks[chunk_index] {
            ChunkState::Pending => true,
            _ => false,
        };
        if !is_pending {
            return Err(TiffError::UsageError(UsageError::DuplicateTagData));
        }
        self.chunks.set(chunk_index, ChunkState::Loaded(data));
        Ok(())
    }

    /// Release a failed fetch: the chunk goes back to `NotRequested`, so
    /// the next lookup issues a fresh fetch descriptor. Every waiter of the
    /// chunk may then be woken with the caller's error instead of a value.
    pub fn fail(&mut self, chunk_index: usize) -> (r: TiffResult<()>)
        requires
            old(self).wf(),
        ensures
            final(self).wf(),
            final(self).tag_type == old(self).tag_type,
            final(self).count == old(self).count,
            final(self).offset == old(self).offset,
            final(self).chunk_size == old(self).chunk_size,
            chunk_index >= old(self).chunks@.len() ==> r == Err::<(), TiffError>(
                TiffError::UsageError(UsageError::InvalidChunkIndex(chunk_index as u32)),
            ) && final(self).chunks@ == old(self).chunks@,
            chunk_index < old(self).chunks@.len() ==> match old(self).chunks@[chunk_index as int] {
                ChunkState::Pending => r == Ok::<(), TiffError>(()) && final(self).chunks@ == old(
                    self,
                ).chunks@.update(chunk_index as int, ChunkState::NotRequested),
                _ => r == Err::<(), TiffError>(
                    TiffError::UsageError(UsageError::DuplicateTagData),
                ) && final(self).chunks@ == old(self).chunks@,
            },
    {
        if chunk_index >= self.chunks.len() {
            return Err(TiffError::UsageError(UsageError::InvalidChunkIndex(chunk_index as u32)));
        }
        let is_pending = match &self.chunks[chunk_index] {
            ChunkState::Pending => true,
            _ => false,
        };
        if !is_pending {
            return Err(TiffError::UsageError(UsageError::DuplicateTagData));
        }
        self.chunks.set(chunk_index, ChunkState::NotRequested);
        Ok(())
    }
}

/// An entry's elements, either wholly buffered or backed by a chunked
/// cache.
#[derive(Debug)]
pub enum MaybePartial {
    Whole(BufferedEntry),
    Partial(ChunkedEntryCache),
}

impl MaybePartial {
    /// Whether this holder is in a fit state to be queried.
    pub open spec fn wf(self) -> bool {
        match self {
            MaybePartial::Whole(_) => true,
            MaybePartial::Partial(c) => c.wf(),
        }
    }

    /// What one lookup does to a holder: a wholly buffered entry answers
    /// directly and nothing changes; a chunked holder answers from a loaded
    /// chunk, hands back a wait handle for a claimed chunk, and claims an
    /// untouched chunk — moving exactly that chunk to `Pending` and handing
    /// out its byte-range descriptor — leaving every other chunk as it was.
    pub open spec fn spec_lookup(pre: MaybePartial, post: MaybePartial, index: int, r: TiffResult<
        MaybePartialIndex<u64>,
    >) -> bool {
        match pre {
            MaybePartial::Whole(be) => post == pre && match spec_get_u64(be, index) {
                Ok(v) => r == Ok::<MaybePartialIndex<u64>, TiffError>(
                    MaybePartialIndex::Ready(v),
                ),
                Err(e) => r == Err::<MaybePartialIndex<u64>, TiffError>(e),
            },
            MaybePartial::Partial(c) => {
                &&& post matches MaybePartial::Partial(c2) && c2.tag_type == c.tag_type
                    && c2.count == c.count && c2.offset == c.offset && c2.chunk_size
                    == c.chunk_size && {
                    let chunk = c.spec_chunk_of(index);
                    if index >= c.count {
                        &&& r == Err::<MaybePartialIndex<u64>, TiffError>(
                            TiffError::LimitsExceeded,
                        )
                        &&& c2.chunks@ == c.chunks@
                    } else {
                        match c.chunks@[chunk] {
                            ChunkState::Pending => r == Ok::<MaybePartialIndex<u64>, TiffError>(
                                MaybePartialIndex::Pending(chunk as u64),
                            ) && c2.chunks@ == c.chunks@,
                            ChunkState::Loaded(be) => c2.chunks@ == c.chunks@ && match
                                spec_get_u64(be, index % c.chunk_size as int) {
                                Ok(v) => r == Ok::<MaybePartialIndex<u64>, TiffError>(
                                    MaybePartialIndex::Ready(v),
                                ),
                                Err(e) => r == Err::<MaybePartialIndex<u64>, TiffError>(e),
                            },
                            ChunkState::NotRequested => {
                                if c.spec_chunk_byte_offset(chunk) + c.spec_chunk_byte_len(chunk)
                                    > u64::MAX {
                                    &&& r == Err::<MaybePartialIndex<u64>, TiffError>(
                                        TiffError::LimitsExceeded,
                                    )
                                    &&& c2.chunks@ == c.chunks@
                                } else {
                                    &&& c2.chunks@ == c.chunks@.update(
                                        chunk,
                                        ChunkState::Pending,
                                    )
                                    &&& r matches Ok(
                                        MaybePartialIndex::NeedRead { offset, count, buf },
                                    ) && offset == c.spec_chunk_byte_offset(chunk) && count
                                        == c.spec_chunk_byte_len(chunk) && buf@ == Seq::new(
                                        c.spec_chunk_byte_len(chunk) as nat,
                                        |j: int| 0u8,
                                    )
                                }
                            },
                        }
                    }
                }
            },
        }
    }

    /// Look one element up: a wholly buffered entry answers directly, a
    /// partial one goes through its cache's claim-or-wait protocol.
    pub fn get_u64(&mut self, index: usize) -> (r: TiffResult<MaybePartialIndex<u64>>)
        requires
            old(self).wf(),
        ensures
            final(self).wf(),
            MaybePartial::spec_lookup(*old(self), *final(self), index as int, r),
    {
        match self {
            MaybePartial::Whole(be) => match be.get_u64(index) {
                Ok(v) => Ok(MaybePartialIndex::Ready(v)),
                Err(e) => Err(e),
            },
            MaybePartial::Partial(cache) => cache.get_u64(index),
        }
    }
}

} // verus!
