//! On-disk structures: the BIOS parameter block of the boot sector and the
//! FAT32 allocation table.
use crate::util::{field_u16, field_u32, range, read_u16, read_u32, read_u8};
use vstd::prelude::*;

verus! {

/// Offset of the OEM name in the boot sector.
pub const OEM_START: usize = 3;
/// Offset one past the OEM name.
pub const OEM_END: usize = 11;
/// Offset of the bytes-per-sector field (`u16`).
pub const BYTES_PER_SECTOR_OFFSET: usize = 11;
/// Offset of the sectors-per-cluster field (`u8`).
pub const SECTORS_PER_CLUSTER_OFFSET: usize = 13;
/// Offset of the reserved-sector-count field (`u16`).
pub const RESERVED_SECTOR_COUNT_OFFSET: usize = 14;
/// Offset of the number-of-FATs field (`u8`).
pub const FAT_COUNT_OFFSET: usize = 16;
/// Offset of the root-directory-entry-count field (`u16`).
pub const ROOT_ENTRY_COUNT_OFFSET: usize = 17;
/// Offset of the 16-bit total-sector-count field (`u16`).
pub const TOTAL_SECTORS_16_OFFSET: usize = 19;
/// Offset of the 16-bit sectors-per-FAT field (`u16`).
pub const FAT_SIZE_16_OFFSET: usize = 22;
/// Offset of the 32-bit total-sector-count field (`u32`).
pub const TOTAL_SECTORS_32_OFFSET: usize = 32;
/// Length of the part of the boot sector that all FAT variants share.
pub const COMMON_BPB_SIZE: usize = 36;
/// Offset of the FAT32 sectors-per-FAT field (`u32`).
pub const FAT_SIZE_32_OFFSET: usize = 36;
/// Offset of the FAT32 root-directory cluster field (`u32`).
pub const ROOT_CLUSTER_OFFSET: usize = 44;
/// Length of the boot sector prefix that holds the FAT32 fields read here.
pub const FAT32_BPB_SIZE: usize = 48;

/// Bytes per sector recorded in the boot sector `b`.
pub open spec fn spec_bytes_per_sector(b: Seq<u8>) -> int {
    field_u16(b, BYTES_PER_SECTOR_OFFSET as int)
}

/// Sectors per cluster recorded in the boot sector `b`.
pub open spec fn spec_sectors_per_cluster(b: Seq<u8>) -> int {
    b[SECTORS_PER_CLUSTER_OFFSET as int] as int
}

/// Reserved sectors recorded in the boot sector `b`.
pub open spec fn spec_reserved_sector_count(b: Seq<u8>) -> int {
    field_u16(b, RESERVED_SECTOR_COUNT_OFFSET as int)
}

/// Number of FATs recorded in the boot sector `b`.
pub open spec fn spec_fat_count(b: Seq<u8>) -> int {
    b[FAT_COUNT_OFFSET as int] as int
}

/// Number of root directory entries recorded in the boot sector `b`.
pub open spec fn spec_root_entry_count(b: Seq<u8>) -> int {
    field_u16(b, ROOT_ENTRY_COUNT_OFFSET as int)
}

/// Total sector count: the 16-bit field when it is not zero, else the 32-bit one.
pub open spec fn spec_total_sectors(b: Seq<u8>) -> int {
    if field_u16(b, TOTAL_SECTORS_16_OFFSET as int) != 0 {
        field_u16(b, TOTAL_SECTORS_16_OFFSET as int)
    } else {
        field_u32(b, TOTAL_SECTORS_32_OFFSET as int)
    }
}

/// Sectors per FAT: the 16-bit field when it is not zero, else the FAT32 field.
pub open spec fn spec_sectors_per_fat(b: Seq<u8>) -> int {
    if field_u16(b, FAT_SIZE_16_OFFSET as int) != 0 {
        field_u16(b, FAT_SIZE_16_OFFSET as int)
    } else {
        field_u32(b, FAT_SIZE_32_OFFSET as int)
    }
}

/// First cluster of the root directory recorded in a FAT32 boot sector `b`.
pub open spec fn spec_root_cluster(b: Seq<u8>) -> int {
    field_u32(b, ROOT_CLUSTER_OFFSET as int)
}

/// The BIOS parameter block fields common to FAT12, FAT16 and FAT32.
pub struct CommonBiosParameterBlock<'a>(&'a [u8]);

impl<'a> View for CommonBiosParameterBlock<'a> {
    type V = Seq<u8>;

    closed spec fn view(&self) -> Seq<u8> {
        self.0@
    }
}

impl<'a> CommonBiosParameterBlock<'a> {
    /// Reads the parameter block at the start of a boot sector.
    pub fn from(other: &'a [u8]) -> (bpb: Self)
        requires
            other@.len() >= COMMON_BPB_SIZE,
        ensures
            bpb@ == other@,
    {
        CommonBiosParameterBlock(other)
    }

    /// The eight OEM name bytes.
    pub fn oem(&self) -> (out: &'a [u8])
        requires
            self@.len() >= COMMON_BPB_SIZE,
        ensures
            out@ == self@.subrange(OEM_START as int, OEM_END as int),
    {
        range(self.0, OEM_START, OEM_END)
    }

    pub fn bytes_per_sector(&self) -> (out: u16)
        requires
            self@.len() >= COMMON_BPB_SIZE,
        ensures
            out == spec_bytes_per_sector(self@),
    {
        read_u16(self.0, BYTES_PER_SECTOR_OFFSET)
    }

    pub fn sectors_per_cluster(&self) -> (out: u8)
        requires
            self@.len() >= COMMON_BPB_SIZE,
        ensures
            out == spec_sectors_per_cluster(self@),
    {
        read_u8(self.0, SECTORS_PER_CLUSTER_OFFSET)
    }

    pub fn reserved_sector_count(&self) -> (out: u16)
        requires
            self@.len() >= COMMON_BPB_SIZE,
        ensures
            out == spec_reserved_sector_count(self@),
    {
        read_u16(self.0, RESERVED_SECTOR_COUNT_OFFSET)
    }

    pub fn fat_count(&self) -> (out: u8)
        requires
            self@.len() >= COMMON_BPB_SIZE,
        ensures
            out == spec_fat_count(self@),
    {
        read_u8(self.0, FAT_COUNT_OFFSET)
    }

    pub fn root_entry_count(&self) -> (out: u16)
        requires
            self@.len() >= COMMON_BPB_SIZE,
        ensures
            out == spec_root_entry_count(self@),
    {
        read_u16(self.0, ROOT_ENTRY_COUNT_OFFSET)
    }

    pub fn total_sectors(&self) -> (out: u32)
        requires
            self@.len() >= COMMON_BPB_SIZE,
        ensures
            out == spec_total_sectors(self@),
    {
        let small = read_u16(self.0, TOTAL_SECTORS_16_OFFSET);
        if small != 0 {
            small as u32
        } else {
            read_u32(self.0, TOTAL_SECTORS_32_OFFSET)
        }
    }
}

/// The FAT32-only part of the BIOS parameter block.
pub struct ExtendedFat32BiosParameterBlock<'a>(&'a [u8]);

impl<'a> View for ExtendedFat32BiosParameterBlock<'a> {
    type V = Seq<u8>;

    closed spec fn view(&self) -> Seq<u8> {
        self.0@
    }
}

impl<'a> ExtendedFat32BiosParameterBlock<'a> {
    /// Reads the FAT32 parameter block of a boot sector.
    pub fn from(other: &'a [u8]) -> (bpb: Self)
        requires
            other@.len() >= FAT32_BPB_SIZE,
        ensures
            bpb@ == other@,
    {
        ExtendedFat32BiosParameterBlock(other)
    }

    pub fn sectors_per_fat(&self) -> (out: u32)
        requires
            self@.len() >= FAT32_BPB_SIZE,
        ensures
            out == field_u32(self@, FAT_SIZE_32_OFFSET as int),
    {
        read_u32(self.0, FAT_SIZE_32_OFFSET)
    }

    pub fn root_cluster(&self) -> (out: u32)
        requires
            self@.len() >= FAT32_BPB_SIZE,
        ensures
            out == spec_root_cluster(self@),
    {
        read_u32(self.0, ROOT_CLUSTER_OFFSET)
    }
}

/// What a FAT32 table entry says of the cluster that follows.
#[derive(Debug, Clone, Copy, PartialEq, Eq)]
pub enum FileAllocationTable32Result {
    NextClusterIndex(u32),
    EndOfChain,
    BadCluster,
}

/// Mask of the 28 bits of a FAT32 entry that hold a cluster number.
pub const FAT32_ENTRY_MASK: u32 = 0x0FFF_FFFF;
/// Smallest masked entry value that marks the end of a cluster chain.
pub const FAT32_END_OF_CHAIN_MIN: u32 = 0x0FFF_FFF8;
/// Masked entry value that marks a bad cluster.
pub const FAT32_BAD_CLUSTER: u32 = 0x0FFF_FFF7;

/// The meaning of the raw 32-bit FAT32 entry `raw`: its upper four bits are
/// reserved and ignored; the remaining 28 bits either mark the end of the chain,
/// mark a bad cluster, or give the next cluster.
pub open spec fn spec_fat32_entry(raw: int) -> FileAllocationTable32Result {
    let v = raw % 0x1000_0000;
    if v >= FAT32_END_OF_CHAIN_MIN {
        FileAllocationTable32Result::EndOfChain
    } else if v == FAT32_BAD_CLUSTER {
        FileAllocationTable32Result::BadCluster
    } else {
        FileAllocationTable32Result::NextClusterIndex(v as u32)
    }
}

/// A view of (part of) a FAT32 allocation table.
pub struct FileAllocationTable32<'a>(&'a [u8]);

impl<'a> View for FileAllocationTable32<'a> {
    type V = Seq<u8>;

    closed spec fn view(&self) -> Seq<u8> {
        self.0@
    }
}

impl<'a> FileAllocationTable32<'a> {
    pub fn from(other: &'a [u8]) -> (fat: Self)
        ensures
            fat@ == other@,
    {
        FileAllocationTable32(other)
    }

    /// The entry whose four bytes start at byte offset `offset` of the table.
    pub fn get_entry(&self, offset: u32) -> (out: FileAllocationTable32Result)
        requires
            offset + 4 <= self@.len(),
        ensures
            out == spec_fat32_entry(field_u32(self@, offset as int)),
    {
        let raw = read_u32(self.0, offset as usize);
        let v = raw & FAT32_ENTRY_MASK;
        assert(raw & 0x0FFF_FFFFu32 == raw % 0x1000_0000) by (bit_vector);
        if v >= FAT32_END_OF_CHAIN_MIN {
            FileAllocationTable32Result::EndOfChain
        } else if v == FAT32_BAD_CLUSTER {
            FileAllocationTable32Result::BadCluster
        } else {
            FileAllocationTable32Result::NextClusterIndex(v)
        }
    }
}

/// A FAT32 entry's upper four bits never change its meaning; an entry names the
/// next cluster exactly when its low 28 bits are below the bad-cluster mark, and
/// then names the cluster those 28 bits give.
pub proof fn lemma_fat32_entry_low_bits(raw: int, upper: int)
    requires
        raw >= 0,
        0 <= upper < 16,
    ensures
        spec_fat32_entry(raw + upper * 0x1000_0000) == spec_fat32_entry(raw),
        spec_fat32_entry(raw) is NextClusterIndex <==> raw % 0x1000_0000 < FAT32_BAD_CLUSTER,
        spec_fat32_entry(raw) is NextClusterIndex ==> spec_fat32_entry(raw)->0 == raw % 0x1000_0000,
        spec_fat32_entry(raw) is EndOfChain <==> raw % 0x1000_0000 > FAT32_BAD_CLUSTER,
{
    assert((raw + upper * 0x1000_0000) % 0x1000_0000 == raw % 0x1000_0000) by (nonlinear_arith)
        requires
            raw >= 0,
            upper >= 0,
    ;
}

} // verus!
