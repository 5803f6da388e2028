//! Walking a cluster chain sector by sector through a buffer of loaded sectors.
//!
//! Reading from the device is left to the caller: a [`ReadBuffer`] says which
//! block to read for a sector ([`ReadBuffer::block_to_read`]), hands out its
//! storage for the read ([`ReadBuffer::take_buffer`]) and records what was read
//! ([`ReadBuffer::finish_read`]).
use crate::entry::DirectoryEntriesIterator;
use crate::prim::{spec_fat32_entry, FileAllocationTable32, FileAllocationTable32Result};
use crate::util::field_u32;
use vstd::prelude::*;

verus! {

/// A half-open range `start..end` of sector indices.
#[derive(Debug, Clone, Copy, PartialEq, Eq)]
pub struct SectorSpan {
    pub start: u64,
    pub end: u64,
}

/// The block that holds sector `sector` when sectors are `ss` bytes and blocks `bs` bytes.
pub open spec fn spec_block_of_sector(sector: int, ss: int, bs: int) -> int {
    (sector * ss) / bs
}

/// The first whole sector that starts in block `block`.
pub open spec fn spec_first_sector_of_block(block: int, ss: int, bs: int) -> int {
    (block * bs) / ss
}

/// The whole sectors that `blocks` blocks hold.
pub open spec fn spec_sectors_in_blocks(blocks: int, ss: int, bs: int) -> int {
    (blocks * bs) / ss
}

/// Whether one of the sector and block sizes is a multiple of the other.
pub open spec fn sizes_aligned(ss: int, bs: int) -> bool {
    ss % bs == 0 || bs % ss == 0
}

/// The sectors recorded as loaded after reading `blocks_read` blocks from the
/// block that holds sector `sector`.
pub open spec fn spec_span_after_read(sector: int, blocks_read: int, ss: int, bs: int) -> SectorSpan {
    let first = spec_first_sector_of_block(spec_block_of_sector(sector, ss, bs), ss, bs);
    SectorSpan {
        start: first as u64,
        end: (first + spec_sectors_in_blocks(blocks_read, ss, bs)) as u64,
    }
}

/// Reading from the block that holds a sector loads that sector whenever one
/// of the sector and block sizes divides the other and at least one whole sector
/// was read; in any case the first sector loaded is not past it.
pub proof fn lemma_read_loads_sector(sector: int, blocks_read: int, ss: int, bs: int)
    requires
        sector >= 0,
        blocks_read >= 0,
        ss > 0,
        bs > 0,
        spec_sectors_in_blocks(blocks_read, ss, bs) > 0,
    ensures
        spec_first_sector_of_block(spec_block_of_sector(sector, ss, bs), ss, bs) <= sector,
        sizes_aligned(ss, bs) ==> sector < spec_first_sector_of_block(
            spec_block_of_sector(sector, ss, bs),
            ss,
            bs,
        ) + spec_sectors_in_blocks(blocks_read, ss, bs),
{
    let block = spec_block_of_sector(sector, ss, bs);
    let first = spec_first_sector_of_block(block, ss, bs);
    let count = spec_sectors_in_blocks(blocks_read, ss, bs);
    assert(block * bs <= sector * ss) by (nonlinear_arith)
        requires
            block == (sector * ss) / bs,
            bs > 0,
            sector >= 0,
            ss > 0,
    ;
    assert(first <= sector) by (nonlinear_arith)
        requires
            first == (block * bs) / ss,
            block * bs <= sector * ss,
            ss > 0,
            block >= 0,
            bs > 0,
    ;
    if ss % bs == 0 {
        let m = ss / bs;
        assert(ss == m * bs) by (nonlinear_arith)
            requires
                m == ss / bs,
                ss % bs == 0,
                bs > 0,
        ;
        assert(block == sector * m) by (nonlinear_arith)
            requires
                block == (sector * ss) / bs,
                ss == m * bs,
                bs > 0,
        ;
        assert(first == sector) by (nonlinear_arith)
            requires
                first == (block * bs) / ss,
                block == sector * m,
                ss == m * bs,
                ss > 0,
                bs > 0,
        ;
    } else if bs % ss == 0 {
        let m = bs / ss;
        assert(bs == m * ss) by (nonlinear_arith)
            requires
                m == bs / ss,
                bs % ss == 0,
                ss > 0,
        ;
        assert(m >= 1) by (nonlinear_arith)
            requires
                bs == m * ss,
                bs > 0,
                ss > 0,
        ;
        assert(block == sector / m) by (nonlinear_arith)
            requires
                block == (sector * ss) / bs,
                bs == m * ss,
                ss > 0,
                m >= 1,
        ;
        assert(first == block * m) by (nonlinear_arith)
            requires
                first == (block * bs) / ss,
                bs == m * ss,
                ss > 0,
        ;
        assert(count == blocks_read * m) by (nonlinear_arith)
            requires
                count == (blocks_read * bs) / ss,
                bs == m * ss,
                ss > 0,
        ;
        assert(sector < first + count) by (nonlinear_arith)
            requires
                block == sector / m,
                first == block * m,
                count == blocks_read * m,
                count > 0,
                m >= 1,
                sector >= 0,
        ;
    }
}

/// A caller-supplied buffer that holds a run of consecutive sectors read from
/// the device.
pub struct ReadBuffer {
    buffer: Vec<u8>,
    sector_size_bytes: u16,
    block_size_bytes: u16,
    loaded_sectors: Option<SectorSpan>,
}

impl ReadBuffer {
    /// The bytes held.
    pub closed spec fn data(&self) -> Seq<u8> {
        self.buffer@
    }

    /// Sector size in bytes.
    pub closed spec fn sector_size(&self) -> int {
        self.sector_size_bytes as int
    }

    /// Device block size in bytes.
    pub closed spec fn block_size(&self) -> int {
        self.block_size_bytes as int
    }

    /// The sectors the buffer holds, from its first byte on, if any.
    pub closed spec fn loaded(&self) -> Option<SectorSpan> {
        self.loaded_sectors
    }

    /// Whether sector `sector` is held.
    pub open spec fn holds(&self, sector: int) -> bool {
        match self.loaded() {
            Some(span) => span.start <= sector < span.end,
            None => false,
        }
    }

    /// Offset in the buffer of sector `sector`, when it is held.
    pub open spec fn offset_of(&self, sector: int) -> int {
        match self.loaded() {
            Some(span) => (sector - span.start) * self.sector_size(),
            None => 0,
        }
    }

    /// The bytes of sector `sector`, when it is held.
    pub open spec fn sector_data(&self, sector: int) -> Seq<u8> {
        self.data().subrange(self.offset_of(sector), self.offset_of(sector) + self.sector_size())
    }

    /// Whether the bytes of sector `sector` lie within the buffer.
    pub open spec fn fits(&self, sector: int) -> bool {
        self.offset_of(sector) + self.sector_size() <= self.data().len()
    }

    /// Whether sector `sector` is held and its bytes lie within the buffer.
    pub open spec fn readable(&self, sector: int) -> bool {
        self.holds(sector) && self.fits(sector)
    }

    /// The loaded sectors are a non-empty run of sectors of non-zero size.
    pub open spec fn wf(&self) -> bool {
        match self.loaded() {
            Some(span) => span.start < span.end && self.sector_size() > 0,
            None => true,
        }
    }

    /// A buffer that holds no sector yet.
    pub fn new(buffer: Vec<u8>, sector_size_bytes: u16, block_size_bytes: u16) -> (rb: Self)
        ensures
            rb.wf(),
            rb.data() == buffer@,
            rb.sector_size() == sector_size_bytes,
            rb.block_size() == block_size_bytes,
            rb.loaded() is None,
    {
        ReadBuffer { buffer, sector_size_bytes, block_size_bytes, loaded_sectors: None }
    }

    pub fn sector_size_bytes(&self) -> (out: u16)
        ensures
            out == self.sector_size(),
    {
        self.sector_size_bytes
    }

    pub fn block_size_bytes(&self) -> (out: u16)
        ensures
            out == self.block_size(),
    {
        self.block_size_bytes
    }

    /// The sectors the buffer holds, if any.
    pub fn loaded_sectors(&self) -> (out: Option<SectorSpan>)
        ensures
            out == self.loaded(),
    {
        self.loaded_sectors
    }

    /// Whether sector `sector_index` is held and its bytes lie within the buffer.
    pub fn is_readable(&self, sector_index: u64) -> (out: bool)
        ensures
            out == self.readable(sector_index as int),
    {
        match self.loaded_sectors {
            Some(span) => {
                if span.start <= sector_index && sector_index < span.end {
                    let rel = (sector_index - span.start) as u128;
                    assert(rel * self.sector_size_bytes <= 0xffff_ffff_ffff_ffffu128 * 0xffffu128)
                        by (nonlinear_arith)
                        requires
                            rel <= 0xffff_ffff_ffff_ffffu128,
                            self.sector_size_bytes <= 0xffff,
                    ;
                    let end = rel * (self.sector_size_bytes as u128) + (self.sector_size_bytes as u128);
                    end <= self.buffer.len() as u128
                } else {
                    false
                }
            },
            None => false,
        }
    }

    /// The bytes of sector `sector_index` if the buffer holds it.
    pub fn get_loaded_sector(&self, sector_index: u64) -> (out: Option<&[u8]>)
        requires
            self.wf(),
            self.holds(sector_index as int) ==> self.fits(sector_index as int),
        ensures
            out is Some <==> self.holds(sector_index as int),
            out is Some ==> out->0@ == self.sector_data(sector_index as int),
            out is Some ==> out->0@.len() == self.sector_size(),
    {
        match self.loaded_sectors {
            Some(loaded_sectors) => {
                if loaded_sectors.start <= sector_index && sector_index < loaded_sectors.end {
                    let ghost ss = self.sector_size_bytes as int;
                    let ghost rel = sector_index - loaded_sectors.start;
                    assert(rel * ss + ss <= self.buffer@.len());
                    assert(self.buffer@.len() == self.buffer.len());
                    let (start, end) = self.sector_range(&loaded_sectors, sector_index);
                    Some(vstd::slice::slice_subrange(self.buffer.as_slice(), start, end))
                } else {
                    None
                }
            },
            None => None,
        }
    }

    /// The device block to read so that the buffer holds sector `sector_index`,
    /// or `None` when it already holds it.
    pub fn block_to_read(&self, sector_index: u64) -> (out: Option<u64>)
        requires
            !self.holds(sector_index as int) ==> {
                &&& self.sector_size() > 0
                &&& self.block_size() > 0
                &&& sector_index * self.sector_size() <= u64::MAX
            },
        ensures
            self.holds(sector_index as int) ==> out is None,
            !self.holds(sector_index as int) ==> out == Some(
                spec_block_of_sector(sector_index as int, self.sector_size(), self.block_size()) as u64,
            ),
    {
        match self.loaded_sectors {
            Some(loaded_sectors) => {
                if loaded_sectors.start <= sector_index && sector_index < loaded_sectors.end {
                    return None;
                }
            },
            None => {},
        }
        let sector_size_bytes = self.sector_size_bytes as u64;
        let block_size_bytes = self.block_size_bytes as u64;
        Some((sector_index * sector_size_bytes) / block_size_bytes)
    }

    /// Hands out the buffer's storage for the device to read into; until
    /// [`ReadBuffer::finish_read`] gives it back, the buffer holds nothing.
    pub fn take_buffer(&mut self) -> (out: Vec<u8>)
        ensures
            out@ == old(self).data(),
            final(self).wf(),
            final(self).data().len() == 0,
            final(self).loaded() is None,
            final(self).sector_size() == old(self).sector_size(),
            final(self).block_size() == old(self).block_size(),
    {
        let mut out: Vec<u8> = Vec::new();
        std::mem::swap(&mut out, &mut self.buffer);
        self.loaded_sectors = None;
        out
    }

    /// Takes back the storage after the device read `blocks_read` blocks into it,
    /// starting at the block that holds sector `desired_sector_index`, and records
    /// which whole sectors it now holds.
    pub fn finish_read(&mut self, buffer: Vec<u8>, desired_sector_index: u64, blocks_read: u64)
        requires
            old(self).sector_size() > 0,
            old(self).block_size() > 0,
            desired_sector_index * old(self).sector_size() <= u64::MAX,
            blocks_read * old(self).block_size() <= u64::MAX,
            spec_sectors_in_blocks(blocks_read as int, old(self).sector_size(), old(self).block_size())
                > 0,
            spec_span_after_read(
                desired_sector_index as int,
                blocks_read as int,
                old(self).sector_size(),
                old(self).block_size(),
            ).start + spec_sectors_in_blocks(
                blocks_read as int,
                old(self).sector_size(),
                old(self).block_size(),
            ) <= u64::MAX,
        ensures
            final(self).wf(),
            final(self).data() == buffer@,
            final(self).sector_size() == old(self).sector_size(),
            final(self).block_size() == old(self).block_size(),
            final(self).loaded() == Some(
                spec_span_after_read(
                    desired_sector_index as int,
                    blocks_read as int,
                    old(self).sector_size(),
                    old(self).block_size(),
                ),
            ),
            sizes_aligned(old(self).sector_size(), old(self).block_size()) ==> final(self).holds(
                desired_sector_index as int,
            ),
    {
        let ghost ss = self.sector_size_bytes as int;
        let ghost bs = self.block_size_bytes as int;
        let sector_size_bytes = self.sector_size_bytes as u64;
        let block_size_bytes = self.block_size_bytes as u64;
        let block_index = (desired_sector_index * sector_size_bytes) / block_size_bytes;
        let sectors_read = (blocks_read * block_size_bytes) / sector_size_bytes;
        proof {
            lemma_read_loads_sector(desired_sector_index as int, blocks_read as int, ss, bs);
            assert(block_index * bs <= desired_sector_index * ss) by (nonlinear_arith)
                requires
                    block_index == (desired_sector_index * ss) / bs,
                    bs > 0,
                    ss > 0,
            ;
        }
        let first_sector = (block_index * block_size_bytes) / sector_size_bytes;
        let last_sector = first_sector + sectors_read;
        self.buffer = buffer;
        self.loaded_sectors = Some(SectorSpan { start: first_sector, end: last_sector });
    }

    /// Byte range of sector `sector_index` within the loaded run `loaded_sectors`.
    fn sector_range(&self, loaded_sectors: &SectorSpan, sector_index: u64) -> (out: (usize, usize))
        requires
            self.sector_size() > 0,
            loaded_sectors.start <= sector_index,
            (sector_index - loaded_sectors.start) * self.sector_size() + self.sector_size()
                <= usize::MAX,
        ensures
            out.0 == (sector_index - loaded_sectors.start) * self.sector_size(),
            out.1 == out.0 + self.sector_size(),
    {
        let ss = self.sector_size_bytes as usize;
        assert(sector_index - loaded_sectors.start <= usize::MAX) by (nonlinear_arith)
            requires
                (sector_index - loaded_sectors.start) * ss + ss <= usize::MAX,
                ss >= 0,
                sector_index - loaded_sectors.start >= 0,
                ss > 0,
        ;
        let relative_sector_index = (sector_index - loaded_sectors.start) as usize;
        let byte_start = relative_sector_index * ss;
        let byte_end = byte_start + ss;
        (byte_start, byte_end)
    }
}

} // verus!

verus! {

/// Where the parts of a FAT file system lie, in sectors.
#[derive(Debug, Clone, Copy)]
pub struct FATGeometry {
    pub cluster_size_sectors: u8,
    pub sector_size_bytes: u16,
    pub first_fat_sector: u64,
    pub first_data_sector: u64,
}

/// Sectors and clusters are non-empty, and the FAT and data regions start where
/// a boot sector can place them (their offsets come from 16- and 32-bit fields).
pub open spec fn geometry_valid(geo: FATGeometry) -> bool {
    &&& geo.sector_size_bytes > 0
    &&& geo.cluster_size_sectors >= 1
    &&& geo.first_fat_sector <= u16::MAX
    &&& geo.first_data_sector <= u32::MAX
}

/// Absolute index of sector `cluster_sector` of data cluster `cluster`.
pub open spec fn spec_cluster_sector(geo: FATGeometry, cluster: int, cluster_sector: int) -> int {
    (cluster - 2) * geo.cluster_size_sectors + geo.first_data_sector + cluster_sector
}

/// The FAT sector that holds the entry of cluster `cluster` (four bytes per entry).
pub open spec fn spec_fat_sector(geo: FATGeometry, cluster: int) -> int {
    geo.first_fat_sector + (cluster * 4) / (geo.sector_size_bytes as int)
}

/// Offset of the entry of cluster `cluster` within its FAT sector.
pub open spec fn spec_fat_entry_offset(geo: FATGeometry, cluster: int) -> int {
    (cluster * 4) % (geo.sector_size_bytes as int)
}

/// Walks the sectors of a cluster chain.
pub struct ClusterWalker {
    buffer: ReadBuffer,
    cluster_index: u32,
    cluster_sector_index: u8,
    geo: FATGeometry,
}

impl ClusterWalker {
    pub closed spec fn read_buffer(&self) -> ReadBuffer {
        self.buffer
    }

    /// The data cluster being walked.
    pub closed spec fn cluster(&self) -> int {
        self.cluster_index as int
    }

    /// Index of the current sector within the cluster.
    pub closed spec fn cluster_sector(&self) -> int {
        self.cluster_sector_index as int
    }

    pub closed spec fn geometry(&self) -> FATGeometry {
        self.geo
    }

    /// Absolute index of the current sector.
    pub open spec fn current_sector_index(&self) -> int {
        spec_cluster_sector(self.geometry(), self.cluster(), self.cluster_sector())
    }

    /// Whether the current sector is the last of its cluster.
    pub open spec fn at_last_sector(&self) -> bool {
        self.cluster_sector() + 1 == self.geometry().cluster_size_sectors
    }

    /// The FAT entry of the current cluster, when its FAT sector is held.
    pub open spec fn spec_fat_entry(&self) -> FileAllocationTable32Result {
        spec_fat32_entry(
            field_u32(
                self.read_buffer().sector_data(spec_fat_sector(self.geometry(), self.cluster())),
                spec_fat_entry_offset(self.geometry(), self.cluster()),
            ),
        )
    }

    /// Whether the walker can read the FAT entry of its cluster: the FAT sector
    /// is held and the entry lies within it.
    pub open spec fn fat_entry_readable(&self) -> bool {
        &&& self.read_buffer().readable(spec_fat_sector(self.geometry(), self.cluster()))
        &&& spec_fat_entry_offset(self.geometry(), self.cluster()) + 4 <= self.geometry().sector_size_bytes
    }

    /// Whether following the FAT entry of the cluster is defined: the entry can be
    /// read, does not mark a bad cluster, and names no cluster below 2.
    pub open spec fn can_follow_chain(&self) -> bool {
        &&& self.fat_entry_readable()
        &&& !(self.spec_fat_entry() is BadCluster)
        &&& (self.spec_fat_entry() matches FileAllocationTable32Result::NextClusterIndex(n) ==> n >= 2)
    }

    pub open spec fn wf(&self) -> bool {
        &&& self.read_buffer().wf()
        &&& geometry_valid(self.geometry())
        &&& self.read_buffer().sector_size() == self.geometry().sector_size_bytes
        &&& self.cluster() >= 2
        &&& self.cluster_sector() < self.geometry().cluster_size_sectors
    }

    /// A walker at the first sector of cluster `cluster_index`.
    pub fn open(buffer: ReadBuffer, cluster_index: u32, geo: FATGeometry) -> (w: Self)
        requires
            buffer.wf(),
            geometry_valid(geo),
            buffer.sector_size() == geo.sector_size_bytes,
            cluster_index >= 2,
        ensures
            w.wf(),
            w.read_buffer() == buffer,
            w.cluster() == cluster_index,
            w.cluster_sector() == 0,
            w.geometry() == geo,
    {
        ClusterWalker { buffer, cluster_index, cluster_sector_index: 0, geo }
    }

    /// The read buffer.
    pub fn buffer(&self) -> (out: &ReadBuffer)
        ensures
            *out == self.read_buffer(),
    {
        &self.buffer
    }

    /// The read buffer, for loading sectors into it.
    pub fn buffer_mut(&mut self) -> (out: &mut ReadBuffer)
        ensures
            *out == old(self).read_buffer(),
            final(self).read_buffer() == *final(out),
            final(self).cluster() == old(self).cluster(),
            final(self).cluster_sector() == old(self).cluster_sector(),
            final(self).geometry() == old(self).geometry(),
    {
        &mut self.buffer
    }

    /// Absolute index of the current sector.
    pub fn absolute_sector_index(&self) -> (out: u64)
        requires
            self.wf(),
        ensures
            out == self.current_sector_index(),
    {
        assert((self.cluster_index - 2) * self.geo.cluster_size_sectors <= 0xffff_ffffu64 * 0xff)
            by (nonlinear_arith)
            requires
                self.cluster_index >= 2,
        ;
        let absolute_start_sector_index = ((self.cluster_index - 2) as u64) * (
        self.geo.cluster_size_sectors as u64) + self.geo.first_data_sector;
        absolute_start_sector_index + (self.cluster_sector_index as u64)
    }

    /// The bytes of the current sector, which the buffer must hold.
    pub fn current_sector(&self) -> (out: &[u8])
        requires
            self.wf(),
            self.read_buffer().readable(self.current_sector_index()),
        ensures
            out@ == self.read_buffer().sector_data(self.current_sector_index()),
    {
        let index = self.absolute_sector_index();
        match self.buffer.get_loaded_sector(index) {
            Some(s) => s,
            None => {
                assert(false);
                &[]
            },
        }
    }

    /// Moves to the next sector of the cluster; `false`, with nothing changed,
    /// when the current sector is the cluster's last.
    pub fn next_sector(&mut self) -> (out: bool)
        requires
            old(self).wf(),
        ensures
            final(self).wf(),
            out == !old(self).at_last_sector(),
            out <==> old(self).cluster_sector() < old(self).geometry().cluster_size_sectors - 1,
            final(self).cluster_sector() == if out {
                old(self).cluster_sector() + 1
            } else {
                old(self).cluster_sector()
            },
            final(self).read_buffer() == old(self).read_buffer(),
            final(self).cluster() == old(self).cluster(),
            final(self).geometry() == old(self).geometry(),
    {
        let n = self.cluster_sector_index + 1;
        if n == self.geo.cluster_size_sectors {
            false
        } else {
            self.cluster_sector_index = n;
            true
        }
    }

    /// Whether the current sector is the last of its cluster, so that moving on
    /// follows the cluster chain and needs the FAT sector of the cluster.
    pub fn is_last_sector(&self) -> (out: bool)
        requires
            self.wf(),
        ensures
            out == self.at_last_sector(),
            out <==> self.cluster_sector() == self.geometry().cluster_size_sectors - 1,
    {
        self.cluster_sector_index + 1 == self.geo.cluster_size_sectors
    }

    /// Index of the FAT sector that holds the entry of the current cluster.
    pub fn fat_sector_index(&self) -> (out: u64)
        requires
            self.wf(),
        ensures
            out == spec_fat_sector(self.geometry(), self.cluster()),
    {
        let fat_byte_offset = (self.cluster_index as u64) * 4;
        self.geo.first_fat_sector + (fat_byte_offset / (self.geo.sector_size_bytes as u64))
    }

    /// Offset of the entry of the current cluster within its FAT sector.
    pub fn fat_entry_offset(&self) -> (out: u32)
        requires
            self.wf(),
        ensures
            out == spec_fat_entry_offset(self.geometry(), self.cluster()),
    {
        let fat_byte_offset = (self.cluster_index as u64) * 4;
        (fat_byte_offset % (self.geo.sector_size_bytes as u64)) as u32
    }

    /// The FAT entry of the current cluster.
    pub fn fat_entry(&self) -> (out: FileAllocationTable32Result)
        requires
            self.wf(),
            self.fat_entry_readable(),
        ensures
            out == self.spec_fat_entry(),
    {
        let fat_sector = self.fat_sector_index();
        let ent_offset = self.fat_entry_offset();
        match self.buffer.get_loaded_sector(fat_sector) {
            Some(fat_sector_data) => FileAllocationTable32::from(fat_sector_data).get_entry(
                ent_offset,
            ),
            None => {
                assert(false);
                FileAllocationTable32Result::EndOfChain
            },
        }
    }

    /// Follows the cluster chain: the walker at the next cluster (at the same
    /// sector index within it), or `None` at the end of the chain.
    pub fn next_cluster(self) -> (out: Option<Self>)
        requires
            self.wf(),
            self.can_follow_chain(),
        ensures
            match self.spec_fat_entry() {
                FileAllocationTable32Result::NextClusterIndex(n) => out matches Some(w) && {
                    &&& w.wf()
                    &&& w.cluster() == n
                    &&& w.cluster_sector() == self.cluster_sector()
                    &&& w.read_buffer() == self.read_buffer()
                    &&& w.geometry() == self.geometry()
                },
                _ => out is None,
            },
    {
        let mut this = self;
        match this.fat_entry() {
            FileAllocationTable32Result::NextClusterIndex(next_cluster_index) => {
                this.cluster_index = next_cluster_index;
                Some(this)
            },
            FileAllocationTable32Result::EndOfChain => None,
            FileAllocationTable32Result::BadCluster => {
                assert(false);
                None
            },
        }
    }
}

/// Walks the sectors of a directory, one sector of entries at a time.
pub struct DirectoryWalker {
    cluster_walker: ClusterWalker,
}

impl DirectoryWalker {
    pub closed spec fn walker(&self) -> ClusterWalker {
        self.cluster_walker
    }

    pub open spec fn wf(&self) -> bool {
        self.walker().wf()
    }

    pub fn new(cluster_walker: ClusterWalker) -> (w: Self)
        ensures
            w.walker() == cluster_walker,
    {
        DirectoryWalker { cluster_walker }
    }

    /// The cluster walker.
    pub fn cluster_walker(&self) -> (out: &ClusterWalker)
        ensures
            *out == self.walker(),
    {
        &self.cluster_walker
    }

    /// The cluster walker, for loading sectors into its buffer.
    pub fn cluster_walker_mut(&mut self) -> (out: &mut ClusterWalker)
        ensures
            *out == old(self).walker(),
            final(self).walker() == *final(out),
    {
        &mut self.cluster_walker
    }

    /// The occupied entries of the current sector, which must be held.
    pub fn occupied_entries(&self) -> (it: DirectoryEntriesIterator<'_>)
        requires
            self.wf(),
            self.walker().read_buffer().readable(self.walker().current_sector_index()),
        ensures
            it.wf(),
            it.sector() == self.walker().read_buffer().sector_data(
                self.walker().current_sector_index(),
            ),
            it.position() == 0,
    {
        DirectoryEntriesIterator::new(self.cluster_walker.current_sector())
    }

    /// Moves to the next sector of the directory: the next sector of the cluster,
    /// else the cluster that the FAT names next; `None` at the end of the chain.
    pub fn next(self) -> (out: Option<Self>)
        requires
            self.wf(),
            self.walker().at_last_sector() ==> self.walker().can_follow_chain(),
        ensures
            !self.walker().at_last_sector() ==> (out matches Some(w) && {
                &&& w.wf()
                &&& w.walker().cluster() == self.walker().cluster()
                &&& w.walker().cluster_sector() == self.walker().cluster_sector() + 1
                &&& w.walker().read_buffer() == self.walker().read_buffer()
                &&& w.walker().geometry() == self.walker().geometry()
            }),
            self.walker().at_last_sector() ==> match self.walker().spec_fat_entry() {
                FileAllocationTable32Result::NextClusterIndex(n) => out matches Some(w) && {
                    &&& w.wf()
                    &&& w.walker().cluster() == n
                    &&& w.walker().cluster_sector() == self.walker().cluster_sector()
                    &&& w.walker().read_buffer() == self.walker().read_buffer()
                    &&& w.walker().geometry() == self.walker().geometry()
                },
                _ => out is None,
            },
    {
        let mut this = self;
        if this.cluster_walker.next_sector() {
            return Some(this);
        }
        match this.cluster_walker.next_cluster() {
            Some(new_cluster_walker) => Some(DirectoryWalker { cluster_walker: new_cluster_walker }),
            None => None,
        }
    }
}

} // verus!

verus! {

/// Distinct (cluster, sector-in-cluster) pairs name distinct absolute
/// sectors, so the clusters of the data region do not overlap.
pub proof fn lemma_cluster_sectors_disjoint(geo: FATGeometry, c1: int, i1: int, c2: int, i2: int)
    requires
        geometry_valid(geo),
        c1 >= 2,
        c2 >= 2,
        0 <= i1 < geo.cluster_size_sectors,
        0 <= i2 < geo.cluster_size_sectors,
        spec_cluster_sector(geo, c1, i1) == spec_cluster_sector(geo, c2, i2),
    ensures
        c1 == c2,
        i1 == i2,
{
    let cs = geo.cluster_size_sectors as int;
    assert(c1 == c2) by (nonlinear_arith)
        requires
            (c1 - 2) * cs + i1 == (c2 - 2) * cs + i2,
            0 <= i1 < cs,
            0 <= i2 < cs,
    ;
}

/// The FAT entry of a cluster lies four bytes per cluster past the start
/// of the first FAT: its sector and offset within the sector locate byte
/// `first_fat_sector * sector_size + 4 * cluster`.
pub proof fn lemma_fat_entry_position(geo: FATGeometry, cluster: int)
    requires
        geometry_valid(geo),
        cluster >= 0,
    ensures
        spec_fat_sector(geo, cluster) * geo.sector_size_bytes + spec_fat_entry_offset(geo, cluster)
            == geo.first_fat_sector * geo.sector_size_bytes + 4 * cluster,
        0 <= spec_fat_entry_offset(geo, cluster) < geo.sector_size_bytes,
{
    let ss = geo.sector_size_bytes as int;
    let q = (cluster * 4) / ss;
    let r = (cluster * 4) % ss;
    assert(q * ss + r == cluster * 4 && 0 <= r < ss) by (nonlinear_arith)
        requires
            ss > 0,
            q == (cluster * 4) / ss,
            r == (cluster * 4) % ss,
    ;
    assert((geo.first_fat_sector + q) * ss == geo.first_fat_sector * ss + q * ss) by (nonlinear_arith);
}

} // verus!

verus! {

/// After a read of the block that holds sector `sector`, with sizes where one
/// divides the other, the buffer gives back for that sector the bytes the read
/// put at the sector's place: `(sector - first loaded sector) * sector size`
/// bytes into the storage.
pub proof fn lemma_read_gives_back_sector(rb: ReadBuffer, read: Seq<u8>, sector: int, blocks_read: int)
    requires
        rb.wf(),
        sector >= 0,
        blocks_read >= 0,
        rb.block_size() > 0,
        rb.sector_size() > 0,
        sizes_aligned(rb.sector_size(), rb.block_size()),
        spec_sectors_in_blocks(blocks_read, rb.sector_size(), rb.block_size()) > 0,
        sector <= u64::MAX,
        spec_span_after_read(sector, blocks_read, rb.sector_size(), rb.block_size()).start
            + spec_sectors_in_blocks(blocks_read, rb.sector_size(), rb.block_size()) <= u64::MAX,
        rb.data() == read,
        rb.loaded() == Some(spec_span_after_read(sector, blocks_read, rb.sector_size(), rb.block_size())),
    ensures
        rb.holds(sector),
        rb.sector_data(sector) == read.subrange(
            (sector - rb.loaded()->0.start) * rb.sector_size(),
            (sector - rb.loaded()->0.start) * rb.sector_size() + rb.sector_size(),
        ),
{
    lemma_read_loads_sector(sector, blocks_read, rb.sector_size(), rb.block_size());
    let span = spec_span_after_read(sector, blocks_read, rb.sector_size(), rb.block_size());
    assert(span.start as int == spec_first_sector_of_block(
        spec_block_of_sector(sector, rb.sector_size(), rb.block_size()),
        rb.sector_size(),
        rb.block_size(),
    ));
}

} // verus!

verus! {

/// A walker in a cluster of `cs` sectors stays in the cluster until its
/// sector-in-cluster index reaches `cs - 1`: only that sector is the cluster's
/// last, so every sector of the cluster is visited before the FAT is consulted.
/// The sectors of a cluster are consecutive, and the next cluster begins right
/// after the last one.
pub proof fn lemma_walk_covers_cluster(w: ClusterWalker)
    requires
        w.wf(),
    ensures
        w.at_last_sector() <==> w.cluster_sector() == w.geometry().cluster_size_sectors - 1,
        !w.at_last_sector() ==> w.cluster_sector() + 1 < w.geometry().cluster_size_sectors,
        forall|j: int|
            0 <= j < w.geometry().cluster_size_sectors ==> #[trigger] spec_cluster_sector(
                w.geometry(),
                w.cluster(),
                j,
            ) == spec_cluster_sector(w.geometry(), w.cluster(), 0) + j,
        spec_cluster_sector(w.geometry(), w.cluster() + 1, 0) == spec_cluster_sector(
            w.geometry(),
            w.cluster(),
            w.geometry().cluster_size_sectors - 1,
        ) + 1,
{
    let g = w.geometry();
    let cs = g.cluster_size_sectors as int;
    let c = w.cluster();
    assert((c + 1 - 2) * cs == (c - 2) * cs + cs) by (nonlinear_arith);
}

} // verus!
