//! Resolution levels of one file: each level owns a directory and the
//! caches backing its oversized tag arrays, and requests against a level
//! that was never loaded fail at once, naming the level.

use vstd::prelude::*;

use crate::cache::{MaybePartial, MaybePartialIndex};
use crate::error::{TiffError, TiffFormatError, TiffResult, UsageError};
use crate::ifd::Ifd;
use crate::image::Image;

verus! {

broadcast use vstd::std_specs::vec::group_vec_axioms;

/// One loaded resolution level: its image metadata and the lazily loaded
/// chunk-offset and chunk-byte-count arrays.
#[derive(Debug)]
pub struct Overview {
    pub image: Image,
    pub chunk_offsets: MaybePartial,
    pub chunk_bytes: MaybePartial,
}

impl Overview {
    /// A level is usable when both its backing caches are.
    pub open spec fn wf(self) -> bool {
        self.chunk_offsets.wf() && self.chunk_bytes.wf()
    }
}

/// The resolution levels of one file, loaded independently and queried
/// concurrently; directories parsed for nested references live side by
/// side in an arena, and the offsets being parsed are tracked so that a
/// reference cycle fails instead of recursing without bound.
pub struct OverviewSet {
    pub levels: Vec<Option<Overview>>,
    /// Directories reached through nested references, owned here and
    /// referred to by index.
    pub ifd_arena: Vec<Ifd>,
    /// Byte offsets of directories whose parse has begun and not finished.
    pub parsing: Vec<u64>,
}

impl OverviewSet {
    /// Every loaded level is usable.
    pub open spec fn wf(self) -> bool {
        forall|l: int|
            0 <= l < self.levels@.len() ==> match #[trigger] self.levels@[l] {
                Some(ov) => ov.wf(),
                Option::None => true,
            }
    }

    /// A fresh set with the given number of levels, none of them loaded.
    pub fn new(n_levels: usize) -> (r: OverviewSet)
        ensures
            r.wf(),
            r.levels@.len() == n_levels,
            forall|l: int| 0 <= l < n_levels ==> r.levels@[l] is None,
            r.parsing@.len() == 0,
    {
        let mut levels: Vec<Option<Overview>> = Vec::new();
        let mut i: usize = 0;
        while i < n_levels
            invariant
                i <= n_levels,
                levels@.len() == i,
                forall|l: int| 0 <= l < i ==> levels@[l] is None,
            decreases n_levels - i,
        {
            levels.push(Option::None);
            i = i + 1;
        }
        OverviewSet { levels, ifd_arena: Vec::new(), parsing: Vec::new() }
    }

    /// Whether a level's directory has been loaded.
    pub fn is_loaded(&self, level: usize) -> (r: bool)
        ensures
            r == (level < self.levels@.len() && self.levels@[level as int] is Some),
    {
        level < self.levels.len() && match &self.levels[level] {
            Some(_) => true,
            Option::None => false,
        }
    }

    /// Install a loaded level; loading is an explicitly requested
    /// operation, distinct from any chunk request.
    pub fn load_level(&mut self, level: usize, overview: Overview) -> (r: TiffResult<()>)
        requires
            old(self).wf(),
            overview.wf(),
        ensures
            final(self).wf(),
            level >= old(self).levels@.len() ==> r == Err::<(), TiffError>(
                TiffError::UsageError(UsageError::OverviewNotLoaded(level as u16)),
            ) && final(self).levels@ == old(self).levels@,
            level < old(self).levels@.len() ==> r == Ok::<(), TiffError>(()) && final(self).levels@
                == old(self).levels@.update(level as int, Some(overview)),
    {
        if level >= self.levels.len() {
            return Err(TiffError::UsageError(UsageError::OverviewNotLoaded(level as u16)));
        }
        self.levels.set(level, Some(overview));
        Ok(())
    }

    /// Look up one chunk-offset element at a level.
    ///
    /// A level that was never loaded fails at once, naming the level; it is
    /// the caller's decision to load it and ask again. A loaded level goes
    /// through its own cache's claim-or-wait protocol, and no other level
    /// is touched.
    pub fn get_chunk_offset(&mut self, level: usize, index: usize) -> (r: TiffResult<
        MaybePartialIndex<u64>,
    >)
        requires
            old(self).wf(),
        ensures
            final(self).wf(),
            final(self).levels@.len() == old(self).levels@.len(),
            forall|l: int|
                0 <= l < old(self).levels@.len() && l != level ==> final(self).levels@[l] == old(
                    self,
                ).levels@[l],
            !(level < old(self).levels@.len() && old(self).levels@[level as int] is Some) ==> r
                == Err::<MaybePartialIndex<u64>, TiffError>(
                TiffError::UsageError(UsageError::OverviewNotLoaded(level as u16)),
            ) && final(self).levels@ == old(self).levels@,
            level < old(self).levels@.len() ==> match old(self).levels@[level as int] {
                Some(ov) => final(self).levels@[level as int] matches Some(ov2) && ov2.image
                    == ov.image && ov2.chunk_bytes == ov.chunk_bytes && MaybePartial::spec_lookup(
                    ov.chunk_offsets,
                    ov2.chunk_offsets,
                    index as int,
                    r,
                ),
                Option::None => true,
            },
    {
        if level >= self.levels.len() {
            return Err(TiffError::UsageError(UsageError::OverviewNotLoaded(level as u16)));
        }
        let loaded = match &self.levels[level] {
            Some(_) => true,
            Option::None => false,
        };
        if !loaded {
            return Err(TiffError::UsageError(UsageError::OverviewNotLoaded(level as u16)));
        }
        let ov = match &mut self.levels[level] {
            Some(ov) => ov,
            Option::None => {
                return Err(TiffError::UsageError(UsageError::OverviewNotLoaded(level as u16)));
            },
        };
        ov.chunk_offsets.get_u64(index)
    }

    /// Record that a directory at a byte offset is being parsed; a second
    /// begin for the same offset before its finish is a reference cycle.
    pub fn begin_parse(&mut self, offset: u64) -> (r: TiffResult<()>)
        ensures
            (exists|i: int|
                0 <= i < old(self).parsing@.len() && old(self).parsing@[i] == offset) ==> r
                == Err::<(), TiffError>(
                TiffError::FormatError(TiffFormatError::CycleInOffsets),
            ) && final(self).parsing@ == old(self).parsing@,
            !(exists|i: int|
                0 <= i < old(self).parsing@.len() && old(self).parsing@[i] == offset) ==> r
                == Ok::<(), TiffError>(()) && final(self).parsing@ == old(self).parsing@.push(
                offset,
            ),
            final(self).levels@ == old(self).levels@,
            final(self).ifd_arena@ == old(self).ifd_arena@,
    {
        let n = self.parsing.len();
        let mut i: usize = 0;
        while i < n
            invariant
                i <= n,
                n == self.parsing@.len(),
                forall|j: int| 0 <= j < i ==> self.parsing@[j] != offset,
            decreases n - i,
        {
            if self.parsing[i] == offset {
                return Err(TiffError::FormatError(TiffFormatError::CycleInOffsets));
            }
            i = i + 1;
        }
        self.parsing.push(offset);
        Ok(())
    }

    /// Record that the directory at a byte offset finished parsing, moving
    /// it into the arena; its index is returned.
    pub fn finish_parse(&mut self, offset: u64, ifd: Ifd) -> (r: usize)
        ensures
            final(self).ifd_arena@ == old(self).ifd_arena@.push(ifd),
            r == old(self).ifd_arena@.len(),
            final(self).levels@ == old(self).levels@,
            forall|j: int|
                0 <= j < final(self).parsing@.len() ==> #[trigger] final(self).parsing@[j]
                    != offset,
    {
        let n = self.parsing.len();
        let mut kept: Vec<u64> = Vec::new();
        let mut i: usize = 0;
        while i < n
            invariant
                i <= n,
                n == self.parsing@.len(),
                forall|j: int| 0 <= j < kept@.len() ==> (#[trigger] kept@[j]) != offset,
            decreases n - i,
        {
            let v = self.parsing[i];
            if v != offset {
                kept.push(v);
            }
            i = i + 1;
        }
        self.parsing = kept;
        let idx = self.ifd_arena.len();
        self.ifd_arena.push(ifd);
        idx
    }
}

} // verus!
