//! Directory entries: 32-byte records that are either standard (8.3 name,
//! attributes, first cluster, size) or part of a long file name.
use crate::util::{field_u16, field_u32, range, read_u16, read_u32, read_u8};
use vstd::prelude::*;

verus! {

/// Size in bytes of one directory entry.
pub const DIRECTORY_ENTRY_SIZE: usize = 32;
/// Offset of the attribute byte in a directory entry.
pub const ATTR_OFFSET: usize = 11;
/// Attribute value that marks a long file name entry.
pub const LONG_FILE_NAME_ATTR: u8 = 0x0F;
/// First byte of an entry that ends the directory.
pub const END_OF_DIRECTORY_MARKER: u8 = 0x00;
/// First byte of an entry that was deleted.
pub const DELETED_ENTRY_MARKER: u8 = 0xE5;

/// Whether the entry bytes `b` are a long file name entry.
pub open spec fn spec_is_long_file_name(b: Seq<u8>) -> bool {
    b[ATTR_OFFSET as int] == LONG_FILE_NAME_ATTR
}

/// Whether attribute bit `mask` is set in the entry bytes `b`.
pub open spec fn spec_attr_set(b: Seq<u8>, mask: u8) -> bool {
    b[ATTR_OFFSET as int] & mask != 0
}

/// One directory entry, standard or long file name.
pub enum DirectoryEntry<'a> {
    Standard(StandardDirectoryEntry<'a>),
    LongFileName(LongFileNameEntry<'a>),
}

impl<'a> DirectoryEntry<'a> {
    pub const SIZE: usize = 32;

    /// The bytes the entry was read from.
    pub open spec fn bytes(&self) -> Seq<u8> {
        match self {
            DirectoryEntry::Standard(e) => e@,
            DirectoryEntry::LongFileName(e) => e@,
        }
    }

    /// Classifies the entry bytes by their attribute byte.
    pub fn from(other: &'a [u8]) -> (entry: Self)
        requires
            other@.len() > ATTR_OFFSET,
        ensures
            entry.bytes() == other@,
            entry is LongFileName <==> spec_is_long_file_name(other@),
    {
        if other[ATTR_OFFSET] == LONG_FILE_NAME_ATTR {
            DirectoryEntry::LongFileName(LongFileNameEntry(other))
        } else {
            DirectoryEntry::Standard(StandardDirectoryEntry(other))
        }
    }
}

/// A standard (8.3) directory entry.
pub struct StandardDirectoryEntry<'a>(&'a [u8]);

impl<'a> View for StandardDirectoryEntry<'a> {
    type V = Seq<u8>;

    closed spec fn view(&self) -> Seq<u8> {
        self.0@
    }
}

impl<'a> StandardDirectoryEntry<'a> {
    /// The eight name bytes.
    pub fn name(&self) -> (out: &'a [u8])
        requires
            self@.len() >= 8,
        ensures
            out@ == self@.subrange(0, 8),
    {
        range(self.0, 0, 8)
    }

    /// The three extension bytes.
    pub fn ext(&self) -> (out: &'a [u8])
        requires
            self@.len() >= 11,
        ensures
            out@ == self@.subrange(8, 11),
    {
        range(self.0, 8, 11)
    }

    /// File size in bytes.
    pub fn size(&self) -> (out: u32)
        requires
            self@.len() >= 32,
        ensures
            out == field_u32(self@, 28),
    {
        read_u32(self.0, 28)
    }

    pub fn is_read_only(&self) -> (out: bool)
        requires
            self@.len() >= 12,
        ensures
            out == spec_attr_set(self@, 0x01),
    {
        read_u8(self.0, ATTR_OFFSET) & 0x01 != 0
    }

    pub fn is_hidden(&self) -> (out: bool)
        requires
            self@.len() >= 12,
        ensures
            out == spec_attr_set(self@, 0x02),
    {
        read_u8(self.0, ATTR_OFFSET) & 0x02 != 0
    }

    pub fn is_system(&self) -> (out: bool)
        requires
            self@.len() >= 12,
        ensures
            out == spec_attr_set(self@, 0x04),
    {
        read_u8(self.0, ATTR_OFFSET) & 0x04 != 0
    }

    pub fn is_volume_id(&self) -> (out: bool)
        requires
            self@.len() >= 12,
        ensures
            out == spec_attr_set(self@, 0x08),
    {
        read_u8(self.0, ATTR_OFFSET) & 0x08 != 0
    }

    pub fn is_directory(&self) -> (out: bool)
        requires
            self@.len() >= 12,
        ensures
            out == spec_attr_set(self@, 0x10),
    {
        read_u8(self.0, ATTR_OFFSET) & 0x10 != 0
    }

    pub fn is_archive(&self) -> (out: bool)
        requires
            self@.len() >= 12,
        ensures
            out == spec_attr_set(self@, 0x20),
    {
        read_u8(self.0, ATTR_OFFSET) & 0x20 != 0
    }

    /// High 16 bits of the first cluster number.
    pub fn first_cluster_high(&self) -> (out: u16)
        requires
            self@.len() >= 22,
        ensures
            out == field_u16(self@, 20),
    {
        read_u16(self.0, 20)
    }

    /// Low 16 bits of the first cluster number.
    pub fn first_cluster_low(&self) -> (out: u16)
        requires
            self@.len() >= 28,
        ensures
            out == field_u16(self@, 26),
    {
        read_u16(self.0, 26)
    }

    /// The first cluster number, from its high and low halves.
    pub fn first_cluster(&self) -> (out: u32)
        requires
            self@.len() >= 28,
        ensures
            out == field_u16(self@, 20) * 65536 + field_u16(self@, 26),
    {
        let high = self.first_cluster_high();
        let low = self.first_cluster_low();
        assert(((high as u32) << 16u32) | (low as u32) == (high as u32) * 65536 + (low as u32))
            by (bit_vector);
        ((high as u32) << 16) | (low as u32)
    }
}

} // verus!

verus! {

/// Number of UTF-16 code units a long file name entry holds.
pub const LFN_CHAR_COUNT: usize = 13;

/// Offset of the first byte of name portion `p` (0, 1 or 2) in a long file name entry.
pub open spec fn lfn_portion_start(p: int) -> int {
    if p == 0 {
        1
    } else if p == 1 {
        14
    } else {
        28
    }
}

/// Offset one past the last byte of name portion `p`.
pub open spec fn lfn_portion_end(p: int) -> int {
    if p == 0 {
        11
    } else if p == 1 {
        26
    } else {
        32
    }
}

/// Number of name characters held by the portions before portion `p`.
pub open spec fn lfn_portion_base(p: int) -> int {
    if p == 0 {
        0
    } else if p == 1 {
        5
    } else {
        11
    }
}

/// The portion that holds name character `k`.
pub open spec fn lfn_portion_of(k: int) -> int {
    if k < 5 {
        0
    } else if k < 11 {
        1
    } else {
        2
    }
}

/// Offset of name character `k` (0-based, below 13) in a long file name entry.
pub open spec fn lfn_char_offset(k: int) -> int {
    let p = lfn_portion_of(k);
    lfn_portion_start(p) + 2 * (k - lfn_portion_base(p))
}

/// Name character `k` of the long file name entry bytes `b`.
pub open spec fn lfn_char(b: Seq<u8>, k: int) -> int {
    field_u16(b, lfn_char_offset(k))
}

/// One step of the character iterator at position `k`: what it returns and its
/// next position. A zero character is returned as `None` and still consumed;
/// after the last character the iterator stays exhausted.
pub open spec fn lfn_next(b: Seq<u8>, k: int) -> (Option<u16>, int) {
    if k >= LFN_CHAR_COUNT {
        (None, k)
    } else if lfn_char(b, k) == 0 {
        (None, k + 1)
    } else {
        (Some(lfn_char(b, k) as u16), k + 1)
    }
}

/// Whether the entry bytes `b` are long enough for a step at position `k`.
pub open spec fn lfn_can_step(b: Seq<u8>, k: int) -> bool {
    k >= LFN_CHAR_COUNT || b.len() >= lfn_portion_end(lfn_portion_of(k))
}

/// The name characters, in order, that the iterator returns from position `k`
/// before it first returns `None`.
pub open spec fn lfn_name_from(b: Seq<u8>, k: int) -> Seq<u16>
    decreases LFN_CHAR_COUNT - k,
{
    if k >= LFN_CHAR_COUNT || k < 0 || lfn_char(b, k) == 0 {
        Seq::empty()
    } else {
        seq![lfn_char(b, k) as u16] + lfn_name_from(b, k + 1)
    }
}

/// A long file name entry: up to 13 UTF-16 code units of a file's long name.
pub struct LongFileNameEntry<'a>(&'a [u8]);

impl<'a> View for LongFileNameEntry<'a> {
    type V = Seq<u8>;

    closed spec fn view(&self) -> Seq<u8> {
        self.0@
    }
}

impl<'a> LongFileNameEntry<'a> {
    /// An iterator over the name characters, ending at the first zero character.
    pub fn chars(&self) -> (it: LongFileNameCharIterator<'_>)
        requires
            self@.len() >= lfn_portion_end(0),
        ensures
            it.wf(),
            it.entry_bytes() == self@,
            it.position() == 0,
    {
        LongFileNameCharIterator::new(self)
    }

    fn portion1(&self) -> (out: &'a [u8])
        requires
            self@.len() >= lfn_portion_end(0),
        ensures
            out@ == self@.subrange(lfn_portion_start(0), lfn_portion_end(0)),
    {
        range(self.0, 1, 11)
    }

    fn portion2(&self) -> (out: &'a [u8])
        requires
            self@.len() >= lfn_portion_end(1),
        ensures
            out@ == self@.subrange(lfn_portion_start(1), lfn_portion_end(1)),
    {
        range(self.0, 14, 26)
    }

    fn portion3(&self) -> (out: &'a [u8])
        requires
            self@.len() >= lfn_portion_end(2),
        ensures
            out@ == self@.subrange(lfn_portion_start(2), lfn_portion_end(2)),
    {
        range(self.0, 28, 32)
    }
}

/// Reads consecutive little-endian `u16` values from a byte slice.
#[derive(Clone, Copy)]
struct U16Iterator<'a> {
    bytes: &'a [u8],
    pos: usize,
}

impl<'a> U16Iterator<'a> {
    spec fn wf(&self) -> bool {
        self.pos <= self.bytes@.len()
    }

    spec fn remaining(&self) -> Seq<u8> {
        self.bytes@.subrange(self.pos as int, self.bytes@.len() as int)
    }

    fn new(bytes: &'a [u8]) -> (it: Self)
        ensures
            it.wf(),
            it.bytes@ == bytes@,
            it.pos == 0,
    {
        U16Iterator { bytes, pos: 0 }
    }

    fn next(&mut self) -> (out: Option<u16>)
        requires
            old(self).wf(),
            old(self).remaining().len() != 1,
        ensures
            final(self).wf(),
            final(self).bytes == old(self).bytes,
            old(self).remaining().len() == 0 ==> out is None && final(self).pos == old(self).pos,
            old(self).remaining().len() >= 2 ==> {
                &&& out == Some(field_u16(old(self).bytes@, old(self).pos as int) as u16)
                &&& final(self).pos == old(self).pos + 2
            },
    {
        if self.pos >= self.bytes.len() {
            None
        } else {
            let v = read_u16(self.bytes, self.pos);
            self.pos = self.pos + 2;
            Some(v)
        }
    }
}

#[derive(Clone, Copy)]
enum LongFileNameCharIteratorState<'a> {
    Portion1(U16Iterator<'a>),
    Portion2(U16Iterator<'a>),
    Portion3(U16Iterator<'a>),
}

/// Iterates over the name characters of a long file name entry.
pub struct LongFileNameCharIterator<'a> {
    entry: &'a LongFileNameEntry<'a>,
    state: LongFileNameCharIteratorState<'a>,
}

impl<'a> LongFileNameCharIterator<'a> {
    /// The bytes of the entry being read.
    pub closed spec fn entry_bytes(&self) -> Seq<u8> {
        self.entry@
    }

    spec fn portion_index(&self) -> int {
        match self.state {
            LongFileNameCharIteratorState::Portion1(_) => 0,
            LongFileNameCharIteratorState::Portion2(_) => 1,
            LongFileNameCharIteratorState::Portion3(_) => 2,
        }
    }

    spec fn inner(&self) -> U16Iterator<'a> {
        match self.state {
            LongFileNameCharIteratorState::Portion1(i) => i,
            LongFileNameCharIteratorState::Portion2(i) => i,
            LongFileNameCharIteratorState::Portion3(i) => i,
        }
    }

    /// Number of name characters consumed so far (0 to 13).
    pub closed spec fn position(&self) -> int {
        lfn_portion_base(self.portion_index()) + self.inner().pos / 2
    }

    /// The iterator reads the portion it is in, at an even offset within it.
    pub closed spec fn wf(&self) -> bool {
        let p = self.portion_index();
        let i = self.inner();
        &&& self.entry@.len() >= lfn_portion_end(p)
        &&& i.bytes@ == self.entry@.subrange(lfn_portion_start(p), lfn_portion_end(p))
        &&& i.wf()
        &&& i.pos % 2 == 0
    }

    fn new(entry: &'a LongFileNameEntry) -> (it: Self)
        requires
            entry@.len() >= lfn_portion_end(0),
        ensures
            it.wf(),
            it.entry_bytes() == entry@,
            it.position() == 0,
    {
        LongFileNameCharIterator {
            entry,
            state: LongFileNameCharIteratorState::Portion1(U16Iterator::new(entry.portion1())),
        }
    }

    /// The next name character, or `None` at a zero character or past the end.
    pub fn next(&mut self) -> (out: Option<u16>)
        requires
            old(self).wf(),
            lfn_can_step(old(self).entry_bytes(), old(self).position()),
        ensures
            final(self).wf(),
            final(self).entry_bytes() == old(self).entry_bytes(),
            (out, final(self).position()) == lfn_next(old(self).entry_bytes(), old(self).position()),
    {
        let ghost b = old(self).entry_bytes();
        let ghost k = old(self).position();
        loop
            invariant
                self.wf(),
                self.entry_bytes() == b,
                self.position() == k,
                lfn_can_step(b, k),
                b == old(self).entry_bytes(),
                k == old(self).position(),
            decreases 2 - self.portion_index(),
        {
            match self.state {
                LongFileNameCharIteratorState::Portion1(inner) => {
                    let mut it = inner;
                    let r = it.next();
                    match r {
                        Some(v) => {
                            self.state = LongFileNameCharIteratorState::Portion1(it);
                            if v == 0 {
                                return None;
                            }
                            return Some(v);
                        },
                        None => {
                            self.state = LongFileNameCharIteratorState::Portion2(
                                U16Iterator::new(self.entry.portion2()),
                            );
                        },
                    }
                },
                LongFileNameCharIteratorState::Portion2(inner) => {
                    let mut it = inner;
                    let r = it.next();
                    match r {
                        Some(v) => {
                            self.state = LongFileNameCharIteratorState::Portion2(it);
                            if v == 0 {
                                return None;
                            }
                            return Some(v);
                        },
                        None => {
                            self.state = LongFileNameCharIteratorState::Portion3(
                                U16Iterator::new(self.entry.portion3()),
                            );
                        },
                    }
                },
                LongFileNameCharIteratorState::Portion3(inner) => {
                    let mut it = inner;
                    let r = it.next();
                    self.state = LongFileNameCharIteratorState::Portion3(it);
                    match r {
                        Some(v) => {
                            if v == 0 {
                                return None;
                            }
                            return Some(v);
                        },
                        None => {
                            return None;
                        },
                    }
                },
            }
        }
    }
}

} // verus!

verus! {

/// Number of whole directory entries in the bytes `b`.
pub open spec fn entry_count(b: Seq<u8>) -> int {
    (b.len() as int) / (DIRECTORY_ENTRY_SIZE as int)
}

/// Directory entry `i` of the bytes `b`.
pub open spec fn entry_bytes(b: Seq<u8>, i: int) -> Seq<u8> {
    b.subrange(DIRECTORY_ENTRY_SIZE * i, DIRECTORY_ENTRY_SIZE * i + DIRECTORY_ENTRY_SIZE)
}

/// First byte of directory entry `i` of the bytes `b`.
pub open spec fn entry_marker(b: Seq<u8>, i: int) -> u8 {
    b[DIRECTORY_ENTRY_SIZE * i]
}

/// One step of the occupied-entry iterator at entry position `i`: the entry it
/// returns, if any, and its next position. Deleted entries are skipped, an
/// end-of-directory entry gives `None` and is consumed, and past the last whole
/// entry the iterator stays exhausted.
pub open spec fn occupied_next(b: Seq<u8>, i: int) -> (Option<int>, int)
    decreases entry_count(b) - i,
{
    if i < 0 || i >= entry_count(b) {
        (None, i)
    } else if entry_marker(b, i) == END_OF_DIRECTORY_MARKER {
        (None, i + 1)
    } else if entry_marker(b, i) == DELETED_ENTRY_MARKER {
        occupied_next(b, i + 1)
    } else {
        (Some(i), i + 1)
    }
}

/// The positions of the entries, in order, that the iterator returns from
/// position `i` before it first returns `None`.
pub open spec fn occupied_from(b: Seq<u8>, i: int) -> Seq<int>
    decreases entry_count(b) - i,
{
    if i < 0 || i >= entry_count(b) || entry_marker(b, i) == END_OF_DIRECTORY_MARKER {
        Seq::empty()
    } else if entry_marker(b, i) == DELETED_ENTRY_MARKER {
        occupied_from(b, i + 1)
    } else {
        seq![i] + occupied_from(b, i + 1)
    }
}

/// Iterates over the occupied entries of a directory sector.
pub struct DirectoryEntriesIterator<'a> {
    bytes: &'a [u8],
    next_entry: usize,
}

impl<'a> DirectoryEntriesIterator<'a> {
    /// The sector bytes being read.
    pub closed spec fn sector(&self) -> Seq<u8> {
        self.bytes@
    }

    /// Index of the next entry to look at.
    pub closed spec fn position(&self) -> int {
        self.next_entry as int
    }

    /// The position never passes the last whole entry.
    pub closed spec fn wf(&self) -> bool {
        self.next_entry <= entry_count(self.bytes@)
    }

    /// An iterator over the whole entries of `sector`; trailing bytes that do
    /// not fill an entry are ignored.
    pub fn new(sector: &'a [u8]) -> (it: Self)
        ensures
            it.wf(),
            it.sector() == sector@,
            it.position() == 0,
    {
        DirectoryEntriesIterator { bytes: sector, next_entry: 0 }
    }

    /// The next occupied entry, or `None` at the end of the directory or of the sector.
    pub fn next(&mut self) -> (out: Option<DirectoryEntry<'a>>)
        requires
            old(self).wf(),
        ensures
            final(self).wf(),
            final(self).sector() == old(self).sector(),
            final(self).position() == occupied_next(old(self).sector(), old(self).position()).1,
            match occupied_next(old(self).sector(), old(self).position()).0 {
                None => out is None,
                Some(i) => {
                    &&& out is Some
                    &&& out->0.bytes() == entry_bytes(old(self).sector(), i)
                    &&& (out->0 is LongFileName <==> spec_is_long_file_name(
                        entry_bytes(old(self).sector(), i),
                    ))
                },
            },
    {
        let ghost b = self.bytes@;
        let ghost start = self.next_entry as int;
        let count = self.bytes.len() / DIRECTORY_ENTRY_SIZE;
        loop
            invariant
                self.wf(),
                self.bytes@ == b,
                b == old(self).sector(),
                start == old(self).position(),
                count == entry_count(b),
                occupied_next(b, self.next_entry as int) == occupied_next(b, start),
            decreases count - self.next_entry,
        {
            if self.next_entry >= count {
                return None;
            }
            let i = self.next_entry;
            assert(i * 32 + 32 <= b.len()) by (nonlinear_arith)
                requires
                    i < count,
                    count == b.len() / 32,
            ;
            assert(b.len() == self.bytes.len());
            let begin = i * 32;
            let entry = range(self.bytes, begin, begin + 32);
            self.next_entry = i + 1;
            let marker = entry[0];
            if marker == END_OF_DIRECTORY_MARKER {
                return None;
            } else if marker != DELETED_ENTRY_MARKER {
                return Some(DirectoryEntry::from(entry));
            }
        }
    }
}

/// Each step of the occupied-entry iterator returns the first of the
/// entries still to come, and returns `None` exactly when none is left; the
/// ones that remain after the step are the rest of them.
pub proof fn lemma_occupied_next_enumerates(b: Seq<u8>, i: int)
    requires
        0 <= i <= entry_count(b),
    ensures
        occupied_from(b, i).len() == 0 <==> occupied_next(b, i).0 is None,
        occupied_from(b, i).len() > 0 ==> {
            &&& occupied_next(b, i).0 == Some(occupied_from(b, i)[0])
            &&& occupied_from(b, occupied_next(b, i).1) == occupied_from(b, i).drop_first()
        },
    decreases entry_count(b) - i,
{
    if i < entry_count(b) && entry_marker(b, i) != END_OF_DIRECTORY_MARKER && entry_marker(b, i)
        == DELETED_ENTRY_MARKER {
        lemma_occupied_next_enumerates(b, i + 1);
    }
    if i < entry_count(b) && entry_marker(b, i) != END_OF_DIRECTORY_MARKER && entry_marker(b, i)
        != DELETED_ENTRY_MARKER {
        assert(occupied_from(b, i).drop_first() == occupied_from(b, i + 1));
    }
}

/// Every entry the iterator returns is occupied: its first byte marks
/// neither the end of the directory nor a deleted entry.
pub proof fn lemma_occupied_entries_are_occupied(b: Seq<u8>, i: int, k: int)
    requires
        0 <= i <= entry_count(b),
        0 <= k < occupied_from(b, i).len(),
    ensures
        i <= occupied_from(b, i)[k] < entry_count(b),
        entry_marker(b, occupied_from(b, i)[k]) != END_OF_DIRECTORY_MARKER,
        entry_marker(b, occupied_from(b, i)[k]) != DELETED_ENTRY_MARKER,
    decreases entry_count(b) - i,
{
    if entry_marker(b, i) == DELETED_ENTRY_MARKER {
        lemma_occupied_entries_are_occupied(b, i + 1, k);
    } else if k > 0 {
        lemma_occupied_entries_are_occupied(b, i + 1, k - 1);
    }
}

/// A long file name iterator step returns the first character of the
/// name still to come, and returns `None` exactly when that name is empty; what
/// remains after the step is the rest of the name unless the iterator had stopped.
pub proof fn lemma_lfn_next_reads_name(b: Seq<u8>, k: int)
    requires
        0 <= k,
    ensures
        lfn_name_from(b, k).len() == 0 <==> lfn_next(b, k).0 is None,
        lfn_name_from(b, k).len() > 0 ==> {
            &&& lfn_next(b, k).0 == Some(lfn_name_from(b, k)[0])
            &&& lfn_name_from(b, lfn_next(b, k).1) == lfn_name_from(b, k).drop_first()
        },
        lfn_name_from(b, k).len() <= LFN_CHAR_COUNT - k || k >= LFN_CHAR_COUNT,
    decreases LFN_CHAR_COUNT - k,
{
    if k < LFN_CHAR_COUNT && lfn_char(b, k) != 0 {
        lemma_lfn_next_reads_name(b, k + 1);
        assert(lfn_name_from(b, k).drop_first() == lfn_name_from(b, k + 1));
    }
}

} // verus!

verus! {

/// What `n` successive steps of the character iterator return from position `k`.
pub open spec fn lfn_outputs(b: Seq<u8>, k: int, n: nat) -> Seq<Option<u16>>
    decreases n,
{
    if n == 0 {
        Seq::empty()
    } else {
        seq![lfn_next(b, k).0] + lfn_outputs(b, lfn_next(b, k).1, (n - 1) as nat)
    }
}

proof fn lemma_lfn_outputs_len(b: Seq<u8>, k: int, n: nat)
    ensures
        lfn_outputs(b, k, n).len() == n,
    decreases n,
{
    if n > 0 {
        lemma_lfn_outputs_len(b, lfn_next(b, k).1, (n - 1) as nat);
    }
}

/// From position `k`, the character iterator returns the characters of the
/// name one by one, each non-zero and read from its slot of the entry, and then
/// `None`; the name has at most `13 - k` characters.
pub proof fn lemma_lfn_chars_read_name(b: Seq<u8>, k: int)
    requires
        0 <= k <= LFN_CHAR_COUNT,
    ensures
        lfn_name_from(b, k).len() <= LFN_CHAR_COUNT - k,
        forall|j: int|
            0 <= j < lfn_name_from(b, k).len() ==> {
                &&& #[trigger] lfn_outputs(b, k, lfn_name_from(b, k).len() + 1)[j] == Some(
                    lfn_name_from(b, k)[j],
                )
                &&& lfn_name_from(b, k)[j] != 0
                &&& lfn_name_from(b, k)[j] == lfn_char(b, k + j)
            },
        lfn_outputs(b, k, lfn_name_from(b, k).len() + 1)[lfn_name_from(b, k).len() as int] is None,
    decreases LFN_CHAR_COUNT - k,
{
    let name = lfn_name_from(b, k);
    let n = name.len();
    lemma_lfn_next_reads_name(b, k);
    if n == 0 {
        assert(lfn_outputs(b, k, 1)[0] == lfn_next(b, k).0);
    } else {
        let rest = lfn_name_from(b, k + 1);
        lemma_lfn_chars_read_name(b, k + 1);
        let out = lfn_outputs(b, k, n + 1);
        let out_rest = lfn_outputs(b, k + 1, rest.len() + 1);
        lemma_lfn_outputs_len(b, k + 1, rest.len() + 1);
        assert(name == seq![lfn_char(b, k) as u16] + rest);
        assert(lfn_next(b, k).1 == k + 1);
        assert(out == seq![lfn_next(b, k).0] + out_rest);
        assert(0 <= b[lfn_char_offset(k)] + 256 * b[lfn_char_offset(k) + 1] <= 0xffff);
        assert forall|j: int| 0 <= j < n implies {
            &&& #[trigger] out[j] == Some(name[j])
            &&& name[j] != 0
            &&& name[j] == lfn_char(b, k + j)
        } by {
            if j > 0 {
                assert(out[j] == out_rest[j - 1]);
                assert(name[j] == rest[j - 1]);
            }
        }
        assert(out[n as int] == out_rest[rest.len() as int]);
    }
}

/// Each name character of a long file name entry is read from bytes 1..11,
/// 14..26 or 28..32; bytes 0 (order), 11 (attribute), 12 (type), 13 (checksum)
/// and 26..28 (zero field) are never read.
pub proof fn lemma_lfn_char_slots(k: int)
    requires
        0 <= k < LFN_CHAR_COUNT,
    ensures
        ({
            let o = lfn_char_offset(k);
            ||| 1 <= o && o + 2 <= 11
            ||| 14 <= o && o + 2 <= 26
            ||| 28 <= o && o + 2 <= 32
        }),
{
}

/// Two long file name entries that agree on the bytes of the name slots have the
/// same name, whatever their order, attribute, type, checksum and zero fields.
pub proof fn lemma_lfn_name_ignores_other_fields(b1: Seq<u8>, b2: Seq<u8>, k: int)
    requires
        0 <= k <= LFN_CHAR_COUNT,
        forall|i: int|
            (1 <= i < 11 || 14 <= i < 26 || 28 <= i < 32) ==> #[trigger] b1[i] == b2[i],
    ensures
        lfn_name_from(b1, k) == lfn_name_from(b2, k),
    decreases LFN_CHAR_COUNT - k,
{
    if k < LFN_CHAR_COUNT {
        lemma_lfn_char_slots(k);
        let o = lfn_char_offset(k);
        assert(b1[o] == b2[o]);
        assert(b1[o + 1] == b2[o + 1]);
        lemma_lfn_name_ignores_other_fields(b1, b2, k + 1);
    }
}

} // verus!
