//! Sector arithmetic of the FAT layout.
use crate::prim::{spec_sectors_per_fat, FAT_SIZE_16_OFFSET, FAT_SIZE_32_OFFSET};
use crate::util::{read_u16, read_u32};
use vstd::prelude::*;

verus! {

/// Sectors taken by the fixed root directory of FAT12/FAT16: 32 bytes per
/// entry, rounded up to whole sectors.
pub open spec fn spec_root_dir_sector_count(root_entry_count: int, bytes_per_sector: int) -> int {
    (root_entry_count * 32 + (bytes_per_sector - 1)) / bytes_per_sector
}

/// Sectors before the data region: reserved sectors, every FAT, and the fixed
/// root directory.
pub open spec fn spec_meta_sector_count(
    reserved_sectors: int,
    sectors_per_fat: int,
    fat_count: int,
    root_dir_sectors: int,
) -> int {
    reserved_sectors + fat_count * sectors_per_fat + root_dir_sectors
}

/// First sector of data cluster `cluster`; data clusters are numbered from 2.
pub open spec fn spec_first_sector_of_cluster(
    cluster: int,
    sectors_per_cluster: int,
    first_data_sector: int,
) -> int {
    (cluster - 2) * sectors_per_cluster + first_data_sector
}

pub fn root_dir_sector_count(root_entry_count: u32, bytes_per_sector: u16) -> (out: u32)
    requires
        bytes_per_sector > 0,
        root_entry_count * 32 + bytes_per_sector - 1 <= u32::MAX,
    ensures
        out == spec_root_dir_sector_count(root_entry_count as int, bytes_per_sector as int),
{
    (root_entry_count * 32 + (bytes_per_sector as u32 - 1)) / (bytes_per_sector as u32)
}

/// Sectors per FAT read from the boot sector.
pub fn sectors_per_fat(boot: &[u8]) -> (out: u32)
    requires
        boot@.len() >= 40,
    ensures
        out == spec_sectors_per_fat(boot@),
{
    let small = read_u16(boot, FAT_SIZE_16_OFFSET);
    if small != 0 {
        small as u32
    } else {
        read_u32(boot, FAT_SIZE_32_OFFSET)
    }
}

pub fn meta_sector_count(
    reserved_sectors: u16,
    sectors_per_fat: u32,
    fat_count: u8,
    root_dir_sectors: u32,
) -> (out: u32)
    requires
        spec_meta_sector_count(
            reserved_sectors as int,
            sectors_per_fat as int,
            fat_count as int,
            root_dir_sectors as int,
        ) <= u32::MAX,
    ensures
        out == spec_meta_sector_count(
            reserved_sectors as int,
            sectors_per_fat as int,
            fat_count as int,
            root_dir_sectors as int,
        ),
{
    assert(0 <= fat_count * sectors_per_fat) by (nonlinear_arith);
    let fats = (fat_count as u32) * sectors_per_fat;
    (reserved_sectors as u32) + fats + root_dir_sectors
}

pub fn first_sector_of_cluster(cluster: u32, sectors_per_cluster: u8, first_data_sector: u32) -> (out:
    u32)
    requires
        cluster >= 2,
        spec_first_sector_of_cluster(
            cluster as int,
            sectors_per_cluster as int,
            first_data_sector as int,
        ) <= u32::MAX,
    ensures
        out == spec_first_sector_of_cluster(
            cluster as int,
            sectors_per_cluster as int,
            first_data_sector as int,
        ),
{
    assert(0 <= (cluster - 2) * sectors_per_cluster) by (nonlinear_arith)
        requires
            cluster >= 2,
    ;
    (cluster - 2) * (sectors_per_cluster as u32) + first_data_sector
}

} // verus!

verus! {

/// The fixed root directory takes the fewest whole sectors that hold all its
/// 32-byte entries.
pub proof fn lemma_root_dir_sectors_hold_entries(root_entry_count: int, bytes_per_sector: int)
    requires
        root_entry_count >= 0,
        bytes_per_sector > 0,
    ensures
        spec_root_dir_sector_count(root_entry_count, bytes_per_sector) >= 0,
        spec_root_dir_sector_count(root_entry_count, bytes_per_sector) * bytes_per_sector
            >= root_entry_count * 32,
        (spec_root_dir_sector_count(root_entry_count, bytes_per_sector) - 1) * bytes_per_sector
            < root_entry_count * 32 || spec_root_dir_sector_count(root_entry_count, bytes_per_sector)
            == 0,
{
    let r = spec_root_dir_sector_count(root_entry_count, bytes_per_sector);
    let n = root_entry_count * 32;
    assert(r >= 0 && r * bytes_per_sector >= n && ((r - 1) * bytes_per_sector < n || r == 0))
        by (nonlinear_arith)
        requires
            r == (n + (bytes_per_sector - 1)) / bytes_per_sector,
            n >= 0,
            bytes_per_sector > 0,
    ;
}

/// Data clusters follow each other without gaps from the start of the data
/// region: cluster 2 starts at the first data sector, and each next cluster
/// starts one cluster size further on.
pub proof fn lemma_clusters_follow_each_other(cluster: int, sectors_per_cluster: int, first_data_sector: int)
    requires
        cluster >= 2,
    ensures
        spec_first_sector_of_cluster(2, sectors_per_cluster, first_data_sector) == first_data_sector,
        spec_first_sector_of_cluster(cluster + 1, sectors_per_cluster, first_data_sector)
            == spec_first_sector_of_cluster(cluster, sectors_per_cluster, first_data_sector)
            + sectors_per_cluster,
{
    assert((cluster + 1 - 2) * sectors_per_cluster == (cluster - 2) * sectors_per_cluster
        + sectors_per_cluster) by (nonlinear_arith);
}

/// Distinct data clusters start at least a cluster size apart, so with non-empty
/// clusters no two of them start at the same sector.
pub proof fn lemma_cluster_starts_distinct(c1: int, c2: int, sectors_per_cluster: int, first_data_sector: int)
    requires
        2 <= c1 < c2,
        sectors_per_cluster > 0,
    ensures
        spec_first_sector_of_cluster(c2, sectors_per_cluster, first_data_sector)
            - spec_first_sector_of_cluster(c1, sectors_per_cluster, first_data_sector) == (c2 - c1)
            * sectors_per_cluster,
        spec_first_sector_of_cluster(c2, sectors_per_cluster, first_data_sector)
            >= spec_first_sector_of_cluster(c1, sectors_per_cluster, first_data_sector)
            + sectors_per_cluster,
{
    assert((c2 - 2) * sectors_per_cluster - (c1 - 2) * sectors_per_cluster == (c2 - c1)
        * sectors_per_cluster) by (nonlinear_arith);
    assert((c2 - c1) * sectors_per_cluster >= sectors_per_cluster) by (nonlinear_arith)
        requires
            c2 - c1 >= 1,
            sectors_per_cluster > 0,
    ;
}

} // verus!
