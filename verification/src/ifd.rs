//! Image file directories: an ordered tag-to-entry map parsed from a
//! directory buffer, with query and promote operations.

use vstd::prelude::*;

use crate::entry::{
    entry_body_len, spec_entry_decode, BufferedEntry, IfdEntry, IfdEntryView,
};
use crate::error::{TiffError, TiffFormatError, TiffResult, UsageError};
use crate::reader::EndianReader;
use crate::tags::{tag_code, Tag};
use crate::ByteOrder;
use vstd::map::*;

verus! {

broadcast use vstd::std_specs::vec::group_vec_axioms;

/// A tag-to-entry map, keyed by the tag's 16-bit id.
#[derive(Debug)]
pub struct Directory {
    pub entries: Vec<(u16, IfdEntry)>,
}

/// The map a run of keyed entries builds up, later pairs overwriting
/// earlier ones with the same key.
pub open spec fn map_of_pairs(s: Seq<(u16, IfdEntryView)>) -> Map<u16, IfdEntryView>
    decreases s,
{
    if s.len() == 0 {
        Map::empty()
    } else {
        map_of_pairs(s.drop_last()).insert(s.last().0, s.last().1)
    }
}

/// The views of a run of keyed entries.
pub open spec fn pair_views(s: Seq<(u16, IfdEntry)>) -> Seq<(u16, IfdEntryView)>
    decreases s,
{
    if s.len() == 0 {
        Seq::empty()
    } else {
        pair_views(s.drop_last()).push((s.last().0, s.last().1@))
    }
}

/// Each keyed entry's view stands at its own index.
pub proof fn lemma_pair_views_index(s: Seq<(u16, IfdEntry)>)
    ensures
        pair_views(s).len() == s.len(),
        forall|i: int|
            0 <= i < s.len() ==> #[trigger] pair_views(s)[i] == (s[i].0, s[i].1@),
    decreases s.len(),
{
    if s.len() == 0 {
        assert(pair_views(s) =~= Seq::<(u16, IfdEntryView)>::empty());
    } else {
        let t = s.drop_last();
        lemma_pair_views_index(t);
        assert forall|i: int|
            0 <= i < s.len() implies #[trigger] pair_views(s)[i] == (s[i].0, s[i].1@) by {
            if i < s.len() - 1 {
                assert(pair_views(s)[i] == pair_views(t)[i]);
                assert(t[i] == s[i]);
            }
        }
    }
}

/// Whether no two entries share a key.
pub open spec fn unique_keys(s: Seq<(u16, IfdEntryView)>) -> bool {
    forall|i: int, j: int|
        0 <= i < s.len() && 0 <= j < s.len() && i != j ==> (#[trigger] s[i]).0 != (
        #[trigger] s[j]).0
}

/// What a run of keyed entries with no repeated key builds up: exactly its
/// own pairs.
pub proof fn lemma_map_of_pairs(s: Seq<(u16, IfdEntryView)>)
    ensures
        forall|k: u16|
            map_of_pairs(s).contains_key(k) <==> exists|i: int|
                0 <= i < s.len() && (#[trigger] s[i]).0 == k,
        unique_keys(s) ==> forall|i: int|
            0 <= i < s.len() ==> map_of_pairs(s).contains_key((#[trigger] s[i]).0)
                && map_of_pairs(s)[s[i].0] == s[i].1,
    decreases s.len(),
{
    if s.len() > 0 {
        let t = s.drop_last();
        let last = s.last();
        lemma_map_of_pairs(t);
        assert(map_of_pairs(s) == map_of_pairs(t).insert(last.0, last.1));
        assert forall|k: u16| map_of_pairs(s).contains_key(k) implies exists|i: int|
            0 <= i < s.len() && (#[trigger] s[i]).0 == k by {
            if k == last.0 {
                assert(s[s.len() - 1].0 == k);
            } else {
                assert(map_of_pairs(t).contains_key(k));
                let i = choose|i: int| 0 <= i < t.len() && (#[trigger] t[i]).0 == k;
                assert(s[i] == t[i]);
                assert(s[i].0 == k);
            }
        }
        assert forall|k: u16|
            (exists|i: int| 0 <= i < s.len() && (#[trigger] s[i]).0 == k) implies map_of_pairs(
            s,
        ).contains_key(k) by {
            let i = choose|i: int| 0 <= i < s.len() && (#[trigger] s[i]).0 == k;
            if i < s.len() - 1 {
                assert(t[i] == s[i]);
                assert(t[i].0 == k);
                assert(map_of_pairs(t).contains_key(k));
            } else {
                assert(k == last.0);
            }
        }
        if unique_keys(s) {
            assert forall|i: int, j: int|
                0 <= i < t.len() && 0 <= j < t.len() && i != j implies (#[trigger] t[i]).0 != (
            #[trigger] t[j]).0 by {
                assert(s[i] == t[i] && s[j] == t[j]);
            }
            assert(unique_keys(t));
            assert forall|i: int|
                0 <= i < s.len() implies map_of_pairs(s).contains_key((#[trigger] s[i]).0)
                && map_of_pairs(s)[s[i].0] == s[i].1 by {
                if i < s.len() - 1 {
                    assert(t[i] == s[i]);
                    assert(map_of_pairs(t).contains_key(t[i].0) && map_of_pairs(t)[t[i].0]
                        == t[i].1);
                    assert(s[i].0 != last.0);
                }
            }
        }
    }
}


/// What a well-formed directory's map holds: exactly its entries, each
/// reachable under its own key.
proof fn lemma_dir_view(d: Directory)
    requires
        d.wf(),
    ensures
        unique_keys(pair_views(d.entries@)),
        forall|i: int|
            0 <= i < d.entries@.len() ==> d@.contains_key((#[trigger] d.entries@[i]).0)
                && d@[d.entries@[i].0] == d.entries@[i].1@,
        forall|k: u16|
            d@.contains_key(k) ==> exists|i: int|
                0 <= i < d.entries@.len() && (#[trigger] d.entries@[i]).0 == k,
{
    lemma_pair_views_index(d.entries@);
    let p = pair_views(d.entries@);
    assert forall|i: int, j: int|
        0 <= i < p.len() && 0 <= j < p.len() && i != j implies (#[trigger] p[i]).0 != (
    #[trigger] p[j]).0 by {
        assert(p[i] == (d.entries@[i].0, d.entries@[i].1@));
        assert(p[j] == (d.entries@[j].0, d.entries@[j].1@));
        assert(d.spec_key(i) != d.spec_key(j));
    }
    lemma_map_of_pairs(p);
    assert forall|i: int|
        0 <= i < d.entries@.len() implies d@.contains_key((#[trigger] d.entries@[i]).0)
        && d@[d.entries@[i].0] == d.entries@[i].1@ by {
        assert(p[i] == (d.entries@[i].0, d.entries@[i].1@));
        assert(map_of_pairs(p).contains_key(p[i].0) && map_of_pairs(p)[p[i].0] == p[i].1);
    }
    assert forall|k: u16| d@.contains_key(k) implies exists|i: int|
        0 <= i < d.entries@.len() && (#[trigger] d.entries@[i]).0 == k by {
        let i = choose|i: int| 0 <= i < p.len() && (#[trigger] p[i]).0 == k;
        assert(p[i] == (d.entries@[i].0, d.entries@[i].1@));
        assert(d.entries@[i].0 == k);
    }
}

impl Directory {
    /// The key of the entry at one index.
    pub open spec fn spec_key(self, i: int) -> u16 {
        self.entries@[i].0
    }

    /// A directory is well formed when no two entries share a key.
    pub open spec fn wf(self) -> bool {
        forall|i: int, j: int|
            0 <= i < self.entries@.len() && 0 <= j < self.entries@.len() && i != j
                ==> #[trigger] self.spec_key(i) != #[trigger] self.spec_key(j)
    }

    /// A fresh, empty directory.
    pub fn new() -> (r: Directory)
        ensures
            r@ == Map::<u16, IfdEntryView>::empty(),
            r.wf(),
    {
        let d = Directory { entries: Vec::new() };
        proof {
            assert(pair_views(d.entries@) =~= Seq::<(u16, IfdEntryView)>::empty());
        }
        d
    }

    /// The index at which a tag id stands, if it is present.
    fn find(&self, code: u16) -> (r: Option<usize>)
        requires
            self.wf(),
        ensures
            match r {
                Some(i) => i < self.entries@.len() && self.entries@[i as int].0 == code,
                Option::None => forall|i: int|
                    0 <= i < self.entries@.len() ==> (#[trigger] self.entries@[i]).0 != code,
            },
    {
        let n = self.entries.len();
        let mut i: usize = 0;
        while i < n
            invariant
                i <= n,
                n == self.entries@.len(),
                forall|j: int| 0 <= j < i ==> (#[trigger] self.entries@[j]).0 != code,
            decreases n - i,
        {
            if self.entries[i].0 == code {
                return Some(i);
            }
            i = i + 1;
        }
        Option::None
    }

    /// Insert an entry under a tag, replacing and returning what stood
    /// there before.
    pub fn insert(&mut self, tag: Tag, entry: IfdEntry) -> (r: Option<IfdEntry>)
        requires
            old(self).wf(),
        ensures
            final(self).wf(),
            final(self)@ == old(self)@.insert(tag_code(tag), entry@),
            match r {
                Some(e) => old(self)@.contains_key(tag_code(tag)) && e@ == old(self)@[tag_code(
                    tag,
                )],
                Option::None => !old(self)@.contains_key(tag_code(tag)),
            },
    {
        let code = tag.to_u16();
        proof {
            lemma_dir_view(*self);
        }
        match self.find(code) {
            Some(i) => {
                let old_entry = self.entries[i].1.clone();
                self.entries.set(i, (code, entry));
                proof {
                    assert(self.entries@ == old(self).entries@.update(i as int, (code, entry)));
                    assert forall|a: int, b: int|
                        0 <= a < self.entries@.len() && 0 <= b < self.entries@.len() && a != b
                        implies #[trigger] self.spec_key(a) != #[trigger] self.spec_key(b) by {
                        assert(old(self).spec_key(a) != old(self).spec_key(b));
                        if a == i as int {
                            assert(self.spec_key(a) == code && code == old(self).spec_key(a));
                        } else {
                            assert(self.spec_key(a) == old(self).spec_key(a));
                        }
                        if b == i as int {
                            assert(self.spec_key(b) == code && code == old(self).spec_key(b));
                        } else {
                            assert(self.spec_key(b) == old(self).spec_key(b));
                        }
                    }
                    lemma_dir_view(*self);
                    assert_maps_equal!(self@, old(self)@.insert(code, entry@), k => {
                        if k == code {
                            assert(self.entries@[i as int].0 == code);
                            assert(self@.contains_key(code) && self@[code] == entry@);
                        } else {
                            if self@.contains_key(k) {
                                let a = choose|a: int|
                                    0 <= a < self.entries@.len() && (
                                    #[trigger] self.entries@[a]).0 == k;
                                assert(a != i as int);
                                assert(old(self).entries@[a] == self.entries@[a]);
                                assert(old(self)@.contains_key(k) && old(self)@[k]
                                    == self.entries@[a].1@);
                                assert(self@[k] == self.entries@[a].1@);
                            }
                            if old(self)@.contains_key(k) {
                                let a = choose|a: int|
                                    0 <= a < old(self).entries@.len() && (
                                    #[trigger] old(self).entries@[a]).0 == k;
                                assert(a != i as int);
                                assert(old(self).entries@[a] == self.entries@[a]);
                                assert(self@.contains_key(k));
                            }
                        }
                    });
                }
                Some(old_entry)
            },
            Option::None => {
                let ghost old_entries = self.entries@;
                self.entries.push((code, entry));
                proof {
                    assert(self.entries@.drop_last() =~= old_entries);
                    lemma_pair_views_index(self.entries@);
                    lemma_pair_views_index(old_entries);
                    assert(pair_views(self.entries@) == pair_views(old_entries).push(
                        (code, entry@),
                    ));
                    assert forall|a: int, b: int|
                        0 <= a < self.entries@.len() && 0 <= b < self.entries@.len() && a != b
                        implies #[trigger] self.spec_key(a) != #[trigger] self.spec_key(b) by {
                        if a < old_entries.len() && b < old_entries.len() {
                            assert(old(self).spec_key(a) != old(self).spec_key(b));
                        } else if a < old_entries.len() {
                            assert((old(self).entries@[a]).0 != code);
                        } else if b < old_entries.len() {
                            assert((old(self).entries@[b]).0 != code);
                        }
                    }
                    let pvn = pair_views(self.entries@);
                    assert(pvn.len() > 0);
                    assert(pvn.drop_last() =~= pair_views(old_entries));
                    assert(pvn.last() == (code, entry@));
                    assert(map_of_pairs(pvn) == map_of_pairs(pvn.drop_last()).insert(
                        pvn.last().0,
                        pvn.last().1,
                    ));
                    assert(final(self)@ == old(self)@.insert(tag_code(tag), entry@));
                }
                Option::None
            },
        }
    }

    /// Borrow the entry a tag id maps to, if any.
    fn get_by_code(&self, code: u16) -> (r: Option<&IfdEntry>)
        requires
            self.wf(),
        ensures
            match r {
                Some(e) => self@.contains_key(code) && e@ == self@[code],
                Option::None => !self@.contains_key(code),
            },
    {
        proof {
            lemma_dir_view(*self);
        }
        match self.find(code) {
            Some(i) => Some(&self.entries[i].1),
            Option::None => {
                proof {
                    if self@.contains_key(code) {
                        let i = choose|i: int|
                            0 <= i < self.entries@.len() && (#[trigger] self.entries@[i]).0
                                == code;
                    }
                }
                Option::None
            },
        }
    }
}

impl View for Directory {
    type V = Map<u16, IfdEntryView>;

    open spec fn view(&self) -> Map<u16, IfdEntryView> {
        map_of_pairs(pair_views(self.entries@))
    }
}

/// The run of (tag, entry) pairs a directory buffer holds: `n` records
/// parsed in file order from `pos`, each a 16-bit tag followed by an entry
/// record.
pub open spec fn spec_parse_entry_seq(
    data: Seq<u8>,
    pos: int,
    order: ByteOrder,
    bigtiff: bool,
    n: nat,
) -> Result<Seq<(u16, IfdEntryView)>, TiffError>
    decreases n,
{
    if n == 0 {
        Ok(Seq::empty())
    } else if pos + 2 > data.len() {
        Err(TiffError::IoError)
    } else {
        let tag = crate::u16_of(data.subrange(pos, pos + 2), order);
        match spec_entry_decode(data, pos + 2, order, bigtiff) {
            Err(e) => Err(e),
            Ok(ev) => match spec_parse_entry_seq(
                data,
                pos + 2 + entry_body_len(bigtiff),
                order,
                bigtiff,
                (n - 1) as nat,
            ) {
                Err(e) => Err(e),
                Ok(rest) => Ok(seq![(tag, ev)] + rest),
            },
        }
    }
}

/// The parse of a whole directory buffer: an entry count, then that many
/// records, inserted in file order with a later duplicate tag overwriting
/// an earlier one.
pub open spec fn spec_parse_dir(data: Seq<u8>, order: ByteOrder, bigtiff: bool) -> Result<
    Map<u16, IfdEntryView>,
    TiffError,
> {
    let cw = if bigtiff {
        8int
    } else {
        2int
    };
    if cw > data.len() {
        Err(TiffError::IoError)
    } else {
        let n: nat = if bigtiff {
            crate::u64_of(data.subrange(0, 8), order) as nat
        } else {
            crate::u16_of(data.subrange(0, 2), order) as nat
        };
        match spec_parse_entry_seq(data, cw, order, bigtiff, n) {
            Err(e) => Err(e),
            Ok(pairs) => Ok(map_of_pairs(pairs)),
        }
    }
}

/// An image file directory: a well-formed tag-to-entry map.
///
/// Sub-directories are not nested here; a resolution level set owns parsed
/// directories side by side and refers to them by index, so that reference
/// cycles in a file cannot build unbounded structures.
#[derive(Debug)]
pub struct Ifd {
    pub data: Directory,
}

impl View for Ifd {
    type V = Map<u16, IfdEntryView>;

    open spec fn view(&self) -> Map<u16, IfdEntryView> {
        self.data@
    }
}

impl Ifd {
    /// An IFD is well formed when its directory is.
    pub open spec fn wf(self) -> bool {
        self.data.wf()
    }

    /// A fresh, empty IFD.
    pub fn new() -> (r: Ifd)
        ensures
            r@ == Map::<u16, IfdEntryView>::empty(),
            r.wf(),
    {
        Ifd { data: Directory::new() }
    }

    /// Parse a directory from a buffer: the entry count, then that many
    /// (tag, entry) records in file order; a duplicate tag overwrites the
    /// earlier entry.
    pub fn from_buffer(buf: &Vec<u8>, byte_order: ByteOrder, bigtiff: bool) -> (r: TiffResult<
        Ifd,
    >)
        ensures
            match spec_parse_dir(buf@, byte_order, bigtiff) {
                Ok(m) => r matches Ok(ifd) && ifd@ == m && ifd.wf(),
                Err(e) => r == Err::<Ifd, TiffError>(e),
            },
    {
        let ghost gdata = buf@;
        let copy = buf.clone();
        proof {
            assert(copy@ =~= buf@);
        }
        let mut r = EndianReader::wrap(copy, byte_order);
        let num_entries: u64 = if bigtiff {
            match r.read_u64() {
                Ok(n) => n,
                Err(e) => {
                    return Err(e);
                },
            }
        } else {
            match r.read_u16() {
                Ok(n) => n as u64,
                Err(e) => {
                    return Err(e);
                },
            }
        };
        let mut ifd = Ifd::new();
        let ghost mut parsed: Seq<(u16, IfdEntryView)> = Seq::empty();
        let mut i: u64 = 0;
        while i < num_entries
            invariant
                i <= num_entries,
                r.wf(),
                gdata == buf@,
                r.spec_data() == gdata,
                r.byte_order == byte_order,
                ifd.wf(),
                ifd@ == map_of_pairs(parsed),
                bigtiff ==> 8 <= gdata.len() && num_entries == crate::u64_of(
                    gdata.subrange(0, 8),
                    byte_order,
                ),
                !bigtiff ==> 2 <= gdata.len() && num_entries == crate::u16_of(
                    gdata.subrange(0, 2),
                    byte_order,
                ) as u64,
                match spec_parse_entry_seq(
                    gdata,
                    r.spec_pos(),
                    byte_order,
                    bigtiff,
                    (num_entries - i) as nat,
                ) {
                    Ok(rest) => spec_parse_entry_seq(
                        gdata,
                        if bigtiff {
                            8int
                        } else {
                            2int
                        },
                        byte_order,
                        bigtiff,
                        num_entries as nat,
                    ) == Ok::<Seq<(u16, IfdEntryView)>, TiffError>(parsed + rest),
                    Err(e) => spec_parse_entry_seq(
                        gdata,
                        if bigtiff {
                            8int
                        } else {
                            2int
                        },
                        byte_order,
                        bigtiff,
                        num_entries as nat,
                    ) == Err::<Seq<(u16, IfdEntryView)>, TiffError>(e),
                },
            decreases num_entries - i,
        {
            let ghost pos_start = r.spec_pos();
            let ghost n_left = (num_entries - i) as nat;
            let tag_code_raw = match r.read_u16() {
                Ok(t) => t,
                Err(e) => {
                    proof {
                        assert(spec_parse_entry_seq(gdata, pos_start, byte_order, bigtiff, n_left)
                            == Err::<Seq<(u16, IfdEntryView)>, TiffError>(TiffError::IoError));
                    }
                    return Err(e);
                },
            };
            let tag = Tag::from_u16_exhaustive(tag_code_raw);
            let entry = match IfdEntry::from_reader(&mut r, bigtiff) {
                Ok(e) => e,
                Err(e) => {
                    proof {
                        assert(spec_entry_decode(gdata, pos_start + 2, byte_order, bigtiff)
                            == Err::<IfdEntryView, TiffError>(e));
                        assert(spec_parse_entry_seq(gdata, pos_start, byte_order, bigtiff, n_left)
                            == Err::<Seq<(u16, IfdEntryView)>, TiffError>(e));
                    }
                    return Err(e);
                },
            };
            proof {
                assert(parsed + (seq![(tag_code_raw, entry@)] + spec_parse_entry_seq(
                    gdata,
                    r.spec_pos(),
                    byte_order,
                    bigtiff,
                    (num_entries - i - 1) as nat,
                )->Ok_0) =~= (parsed + seq![(tag_code_raw, entry@)]) + spec_parse_entry_seq(
                    gdata,
                    r.spec_pos(),
                    byte_order,
                    bigtiff,
                    (num_entries - i - 1) as nat,
                )->Ok_0);
            }
            ifd.data.insert(tag, entry);
            proof {
                let newp = parsed.push((tag_code_raw, entry@));
                assert(newp.drop_last() =~= parsed);
                assert(map_of_pairs(newp) == map_of_pairs(parsed).insert(
                    tag_code_raw,
                    entry@,
                ));
                assert(crate::tags::tag_code(crate::tags::spec_tag_from_u16(tag_code_raw))
                    == tag_code_raw);
                parsed = newp;
                assert(parsed =~= parsed.drop_last() + seq![(tag_code_raw, entry@)]);
            }
            i = i + 1;
        }
        proof {
            assert(spec_parse_entry_seq(gdata, r.spec_pos(), byte_order, bigtiff, 0) == Ok::<
                Seq<(u16, IfdEntryView)>,
                TiffError,
            >(Seq::empty()));
            assert(parsed + Seq::<(u16, IfdEntryView)>::empty() =~= parsed);
        }
        Ok(ifd)
    }

    /// The entry a tag maps to, if the tag is present.
    pub fn get_tag(&self, tag: &Tag) -> (r: Option<&IfdEntry>)
        requires
            self.wf(),
        ensures
            match r {
                Some(e) => self@.contains_key(tag_code(*tag)) && e@ == self@[tag_code(*tag)],
                Option::None => !self@.contains_key(tag_code(*tag)),
            },
    {
        self.data.get_by_code(tag.to_u16())
    }

    /// The entry a tag maps to; a missing tag is a format error.
    pub fn require_tag(&self, tag: &Tag) -> (r: TiffResult<&IfdEntry>)
        requires
            self.wf(),
        ensures
            match r {
                Ok(e) => self@.contains_key(tag_code(*tag)) && e@ == self@[tag_code(*tag)],
                Err(err) => !self@.contains_key(tag_code(*tag)) && err == TiffError::FormatError(
                    TiffFormatError::RequiredTagNotFound(*tag),
                ),
            },
    {
        match self.data.get_by_code(tag.to_u16()) {
            Some(e) => Ok(e),
            Option::None => Err(
                TiffError::FormatError(TiffFormatError::RequiredTagNotFound(*tag)),
            ),
        }
    }

    /// The buffered bytes a tag maps to; a missing tag is a format error
    /// and an unresolved offset a usage error naming what must be fetched.
    pub fn require_tag_value(&self, tag: &Tag) -> (r: TiffResult<&BufferedEntry>)
        requires
            self.wf(),
        ensures
            match r {
                Ok(be) => self@.contains_key(tag_code(*tag)) && self@[tag_code(*tag)]
                    == IfdEntryView::Value(be@),
                Err(err) => {
                    ||| !self@.contains_key(tag_code(*tag)) && err == TiffError::FormatError(
                        TiffFormatError::RequiredTagNotFound(*tag),
                    )
                    ||| (self@.contains_key(tag_code(*tag)) && (self@[tag_code(
                        *tag,
                    )] matches IfdEntryView::Offset {
                        tag_type,
                        count,
                        offset,
                    } && err == TiffError::UsageError(
                        UsageError::RequiredTagNotLoaded(*tag, tag_type, count, offset),
                    )))
                },
            },
    {
        match self.require_tag(tag) {
            Ok(entry) => match entry {
                IfdEntry::Offset { tag_type, count, offset } => Err(
                    TiffError::UsageError(
                        UsageError::RequiredTagNotLoaded(*tag, *tag_type, *count, *offset),
                    ),
                ),
                IfdEntry::Value(be) => Ok(be),
            },
            Err(err) => Err(err),
        }
    }

    /// The buffered bytes a tag maps to, `None` when the tag is absent; an
    /// unresolved offset is a usage error naming what must be fetched.
    pub fn get_tag_value(&self, tag: &Tag) -> (r: TiffResult<Option<&BufferedEntry>>)
        requires
            self.wf(),
        ensures
            match r {
                Ok(Some(be)) => self@.contains_key(tag_code(*tag)) && self@[tag_code(*tag)]
                    == IfdEntryView::Value(be@),
                Ok(Option::None) => !self@.contains_key(tag_code(*tag)),
                Err(err) => self@.contains_key(tag_code(*tag)) && (self@[tag_code(
                    *tag,
                )] matches IfdEntryView::Offset { tag_type, count, offset } && err
                    == TiffError::UsageError(
                    UsageError::RequiredTagNotLoaded(*tag, tag_type, count, offset),
                )),
            },
    {
        match self.get_tag(tag) {
            Some(entry) => match entry {
                IfdEntry::Offset { tag_type, count, offset } => Err(
                    TiffError::UsageError(
                        UsageError::RequiredTagNotLoaded(*tag, *tag_type, *count, *offset),
                    ),
                ),
                IfdEntry::Value(be) => Ok(Some(be)),
            },
            Option::None => Ok(Option::None),
        }
    }

    /// Whether a tag is present.
    pub fn contains_key(&self, tag: &Tag) -> (r: bool)
        requires
            self.wf(),
        ensures
            r == self@.contains_key(tag_code(*tag)),
    {
        match self.data.get_by_code(tag.to_u16()) {
            Some(_) => true,
            Option::None => false,
        }
    }

    /// Promote a tag's deferred offset to its fetched bytes.
    ///
    /// An absent tag is simply inserted; promoting a tag whose data is
    /// already resolved is misuse and fails without changing anything.
    pub fn insert_tag_data_from_buffer(&mut self, tag: &Tag, data: BufferedEntry) -> (r:
        TiffResult<Option<IfdEntry>>)
        requires
            old(self).wf(),
        ensures
            final(self).wf(),
            match r {
                Ok(prev) => {
                    &&& !(old(self)@.contains_key(tag_code(*tag))
                        && old(self)@[tag_code(*tag)] is Value)
                    &&& final(self)@ == old(self)@.insert(
                        tag_code(*tag),
                        IfdEntryView::Value(data@),
                    )
                    &&& match prev {
                        Some(e) => old(self)@.contains_key(tag_code(*tag)) && e@ == old(
                            self,
                        )@[tag_code(*tag)],
                        Option::None => !old(self)@.contains_key(tag_code(*tag)),
                    }
                },
                Err(err) => {
                    &&& old(self)@.contains_key(tag_code(*tag))
                    &&& old(self)@[tag_code(*tag)] is Value
                    &&& err == TiffError::UsageError(UsageError::DuplicateTagData)
                    &&& final(self)@ == old(self)@
                },
            },
    {
        let resolved = match self.data.get_by_code(tag.to_u16()) {
            Some(e) => match e {
                IfdEntry::Value(_) => true,
                _ => false,
            },
            Option::None => false,
        };
        if resolved {
            return Err(TiffError::UsageError(UsageError::DuplicateTagData));
        }
        Ok(self.data.insert(*tag, IfdEntry::Value(data)))
    }
}

} // verus!
