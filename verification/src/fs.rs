//! A FAT file system described by its boot sector.
use crate::math::{
    first_sector_of_cluster, lemma_root_dir_sectors_hold_entries, meta_sector_count, root_dir_sector_count, sectors_per_fat,
    spec_first_sector_of_cluster, spec_meta_sector_count, spec_root_dir_sector_count,
};
use crate::prim::{
    spec_bytes_per_sector, spec_fat_count, spec_reserved_sector_count, spec_root_cluster,
    spec_root_entry_count, spec_sectors_per_cluster, spec_sectors_per_fat, spec_total_sectors,
    CommonBiosParameterBlock, ExtendedFat32BiosParameterBlock, FAT32_BPB_SIZE,
};
use crate::walk::{
    geometry_valid, spec_cluster_sector, spec_fat_sector, ClusterWalker, DirectoryWalker, FATGeometry, ReadBuffer,
};
use vstd::prelude::*;

verus! {

/// The FAT variant, which the number of data clusters decides.
#[derive(Debug, Copy, Clone, PartialEq, Eq, Structural)]
pub enum Variant {
    Fat12,
    Fat16,
    Fat32,
}

/// Fewest clusters of a FAT16 volume.
pub const FAT16_MIN_CLUSTERS: u32 = 4085;
/// Fewest clusters of a FAT32 volume.
pub const FAT32_MIN_CLUSTERS: u32 = 65525;

/// The variant of a volume with `cluster_count` data clusters.
pub open spec fn spec_variant(cluster_count: int) -> Variant {
    if cluster_count < FAT16_MIN_CLUSTERS {
        Variant::Fat12
    } else if cluster_count < FAT32_MIN_CLUSTERS {
        Variant::Fat16
    } else {
        Variant::Fat32
    }
}

impl Variant {
    pub fn from_cluster_count(cluster_count: u32) -> (v: Self)
        ensures
            v == spec_variant(cluster_count as int),
    {
        if cluster_count < FAT16_MIN_CLUSTERS {
            Variant::Fat12
        } else if cluster_count < FAT32_MIN_CLUSTERS {
            Variant::Fat16
        } else {
            Variant::Fat32
        }
    }
}

/// The variant never goes down as the cluster count grows.
pub proof fn lemma_variant_monotonic(a: int, b: int)
    requires
        a <= b,
    ensures
        spec_variant(a) is Fat32 ==> spec_variant(b) is Fat32,
        spec_variant(b) is Fat12 ==> spec_variant(a) is Fat12,
{
}

/// Sectors of the fixed root directory described by the boot sector `b`.
pub open spec fn spec_boot_root_dir_sectors(b: Seq<u8>) -> int {
    spec_root_dir_sector_count(spec_root_entry_count(b), spec_bytes_per_sector(b))
}

/// Sectors before the data region described by the boot sector `b`.
pub open spec fn spec_boot_meta_sectors(b: Seq<u8>) -> int {
    spec_meta_sector_count(
        spec_reserved_sector_count(b),
        spec_sectors_per_fat(b),
        spec_fat_count(b),
        spec_boot_root_dir_sectors(b),
    )
}

/// Data clusters described by the boot sector `b`.
pub open spec fn spec_boot_cluster_count(b: Seq<u8>) -> int {
    (spec_total_sectors(b) - spec_boot_meta_sectors(b)) / spec_sectors_per_cluster(b)
}

/// Why a boot sector cannot be opened.
#[derive(Debug, Clone, Copy, PartialEq, Eq, Structural)]
pub enum BootSectorError {
    /// The sector size is zero.
    ZeroBytesPerSector,
    /// The sectors before the data region do not fit in 32 bits.
    MetaSectorOverflow,
    /// The sectors before the data region exceed the total sector count.
    MetaSectorsExceedTotal,
    /// The cluster size is zero.
    ZeroSectorsPerCluster,
    /// The volume is FAT12 or FAT16, which are not read here.
    UnsupportedVariant(Variant),
}

/// The first reason, in the order the boot sector `b` is read, why it cannot be
/// opened; `Ok` when it can.
pub open spec fn spec_check_boot_sector(b: Seq<u8>) -> Result<(), BootSectorError> {
    if spec_bytes_per_sector(b) == 0 {
        Err(BootSectorError::ZeroBytesPerSector)
    } else if spec_boot_meta_sectors(b) > u32::MAX {
        Err(BootSectorError::MetaSectorOverflow)
    } else if spec_boot_meta_sectors(b) > spec_total_sectors(b) {
        Err(BootSectorError::MetaSectorsExceedTotal)
    } else if spec_sectors_per_cluster(b) == 0 {
        Err(BootSectorError::ZeroSectorsPerCluster)
    } else if spec_variant(spec_boot_cluster_count(b)) != Variant::Fat32 {
        Err(BootSectorError::UnsupportedVariant(spec_variant(spec_boot_cluster_count(b))))
    } else {
        Ok(())
    }
}

/// The geometry described by the boot sector `b`.
pub open spec fn spec_boot_geometry(b: Seq<u8>) -> FATGeometry {
    FATGeometry {
        cluster_size_sectors: spec_sectors_per_cluster(b) as u8,
        sector_size_bytes: spec_bytes_per_sector(b) as u16,
        first_fat_sector: spec_reserved_sector_count(b) as u64,
        first_data_sector: spec_boot_meta_sectors(b) as u64,
    }
}

/// Index of a data cluster.
pub type Cluster = u32;

/// First cluster of a directory.
pub type DirectoryInitialCluster = Cluster;

/// Which directory to walk.
pub enum DirectorySelector {
    Root,
    Normal(DirectoryInitialCluster),
}

/// A FAT32 file system, as its boot sector describes it.
pub struct FATFileSystem {
    device_block_size: u16,
    variant: Variant,
    geo: FATGeometry,
    root_cluster: u32,
}

impl FATFileSystem {
    pub closed spec fn spec_device_block_size(&self) -> int {
        self.device_block_size as int
    }

    pub closed spec fn spec_variant(&self) -> Variant {
        self.variant
    }

    pub closed spec fn geometry(&self) -> FATGeometry {
        self.geo
    }

    pub closed spec fn spec_root_cluster(&self) -> int {
        self.root_cluster as int
    }

    pub open spec fn wf(&self) -> bool {
        &&& self.spec_variant() == Variant::Fat32
        &&& geometry_valid(self.geometry())
    }

    /// First cluster of the directory `directory`.
    pub open spec fn selected_cluster(&self, directory: DirectorySelector) -> int {
        match directory {
            DirectorySelector::Root => self.spec_root_cluster(),
            DirectorySelector::Normal(cluster) => cluster as int,
        }
    }

    pub fn variant(&self) -> (out: Variant)
        ensures
            out == self.spec_variant(),
    {
        self.variant
    }

    pub fn fat_geometry(&self) -> (out: FATGeometry)
        ensures
            out == self.geometry(),
    {
        self.geo
    }

    /// First cluster of the root directory.
    pub fn root_cluster(&self) -> (out: u32)
        ensures
            out == self.spec_root_cluster(),
    {
        self.root_cluster
    }

    /// Whether the boot sector `boot` describes a file system that can be opened,
    /// and if not, why.
    pub fn check_boot_sector(boot: &[u8]) -> (out: Result<(), BootSectorError>)
        requires
            boot@.len() >= FAT32_BPB_SIZE,
        ensures
            out == spec_check_boot_sector(boot@),
    {
        let bpb = CommonBiosParameterBlock::from(boot);
        let bytes_per_sector = bpb.bytes_per_sector();
        if bytes_per_sector == 0 {
            return Err(BootSectorError::ZeroBytesPerSector);
        }
        let root_dir_sectors = root_dir_sector_count(bpb.root_entry_count() as u32, bytes_per_sector);
        let fat_count = bpb.fat_count() as u64;
        let spf = sectors_per_fat(boot) as u64;
        assert(fat_count * spf <= 0xffu64 * 0xffff_ffffu64) by (nonlinear_arith)
            requires
                fat_count <= 0xff,
                spf <= 0xffff_ffff,
        ;
        let fats = fat_count * spf;
        let meta = (bpb.reserved_sector_count() as u64) + fats + (root_dir_sectors as u64);
        if meta > 0xffff_ffff {
            return Err(BootSectorError::MetaSectorOverflow);
        }
        let meta = meta as u32;
        let total = bpb.total_sectors();
        if meta > total {
            return Err(BootSectorError::MetaSectorsExceedTotal);
        }
        let sectors_per_cluster = bpb.sectors_per_cluster();
        if sectors_per_cluster == 0 {
            return Err(BootSectorError::ZeroSectorsPerCluster);
        }
        let variant = Variant::from_cluster_count((total - meta) / (sectors_per_cluster as u32));
        match variant {
            Variant::Fat32 => Ok(()),
            _ => Err(BootSectorError::UnsupportedVariant(variant)),
        }
    }

    /// The file system described by the boot sector `boot`, on a device with
    /// blocks of `device_block_size` bytes.
    pub fn from_boot_sector(boot: &[u8], device_block_size: u16) -> (fs: Self)
        requires
            boot@.len() >= FAT32_BPB_SIZE,
            spec_check_boot_sector(boot@) is Ok,
        ensures
            fs.wf(),
            fs.spec_variant() == spec_variant(spec_boot_cluster_count(boot@)),
            fs.geometry() == spec_boot_geometry(boot@),
            fs.spec_root_cluster() == spec_root_cluster(boot@),
            fs.spec_device_block_size() == device_block_size,
    {
        let bpb = CommonBiosParameterBlock::from(boot);
        let bytes_per_sector = bpb.bytes_per_sector();
        let root_dir_sector_count = root_dir_sector_count(
            bpb.root_entry_count() as u32,
            bytes_per_sector,
        );
        let sectors_per_fat = sectors_per_fat(boot);
        let sectors_per_cluster = bpb.sectors_per_cluster();
        let reserved_sectors = bpb.reserved_sector_count();
        let meta_sectors = meta_sector_count(
            reserved_sectors,
            sectors_per_fat,
            bpb.fat_count(),
            root_dir_sector_count,
        );
        let first_data_sector = meta_sectors;
        let data_sectors = bpb.total_sectors() - meta_sectors;
        let count_of_clusters = data_sectors / (sectors_per_cluster as u32);
        let variant = Variant::from_cluster_count(count_of_clusters);
        let root_cluster = ExtendedFat32BiosParameterBlock::from(boot).root_cluster();
        let geo = FATGeometry {
            cluster_size_sectors: sectors_per_cluster,
            sector_size_bytes: bytes_per_sector,
            first_fat_sector: reserved_sectors as u64,
            first_data_sector: first_data_sector as u64,
        };
        FATFileSystem { device_block_size, variant, root_cluster, geo }
    }

    /// Size a read buffer needs: a sector and a device block must each fit.
    pub fn required_read_buffer_size(&self) -> (out: usize)
        ensures
            out == if self.geometry().sector_size_bytes >= self.spec_device_block_size() {
                self.geometry().sector_size_bytes as int
            } else {
                self.spec_device_block_size()
            },
    {
        let a = self.geo.sector_size_bytes as usize;
        let b = self.device_block_size as usize;
        if a >= b {
            a
        } else {
            b
        }
    }

    /// A walker at the first sector of the directory `directory`, reading
    /// through `buffer`, which holds no sector yet.
    pub fn walk_directory(&self, buffer: Vec<u8>, directory: DirectorySelector) -> (w:
        DirectoryWalker)
        requires
            self.wf(),
            self.selected_cluster(directory) >= 2,
        ensures
            w.wf(),
            w.walker().cluster() == self.selected_cluster(directory),
            w.walker().cluster_sector() == 0,
            w.walker().geometry() == self.geometry(),
            w.walker().read_buffer().data() == buffer@,
            w.walker().read_buffer().loaded() is None,
            w.walker().read_buffer().block_size() == self.spec_device_block_size(),
    {
        let buffer = ReadBuffer::new(buffer, self.geo.sector_size_bytes, self.device_block_size);
        let cluster_walker = match directory {
            DirectorySelector::Normal(cluster_index) => ClusterWalker::open(
                buffer,
                cluster_index,
                self.geo,
            ),
            DirectorySelector::Root => ClusterWalker::open(buffer, self.root_cluster, self.geo),
        };
        DirectoryWalker::new(cluster_walker)
    }

    /// The sector at which the data of a file starting at cluster
    /// `file_first_cluster` begins; it is also the block index that a read of
    /// the file's first cluster passes to the device.
    pub fn read_start_sector(&self, file_first_cluster: u32) -> (out: u64)
        requires
            self.wf(),
            file_first_cluster >= 2,
            spec_first_sector_of_cluster(
                file_first_cluster as int,
                self.geometry().cluster_size_sectors as int,
                self.geometry().first_data_sector as int,
            ) <= u32::MAX,
        ensures
            out == spec_first_sector_of_cluster(
                file_first_cluster as int,
                self.geometry().cluster_size_sectors as int,
                self.geometry().first_data_sector as int,
            ),
    {
        first_sector_of_cluster(
            file_first_cluster,
            self.geo.cluster_size_sectors,
            self.geo.first_data_sector as u32,
        ) as u64
    }
}

} // verus!

verus! {

/// In a file system opened from boot sector `b` with at least one FAT, the
/// FAT entry of every cluster that the FAT has room for lies in a sector of the
/// first FAT, before the data region.
pub proof fn lemma_fat_entries_precede_data(b: Seq<u8>, cluster: int)
    requires
        b.len() >= FAT32_BPB_SIZE,
        spec_check_boot_sector(b) is Ok,
        spec_fat_count(b) >= 1,
        0 <= cluster,
        4 * cluster < spec_sectors_per_fat(b) * spec_bytes_per_sector(b),
    ensures
        spec_boot_geometry(b).first_fat_sector <= spec_fat_sector(spec_boot_geometry(b), cluster),
        spec_fat_sector(spec_boot_geometry(b), cluster) < spec_boot_geometry(b).first_fat_sector
            + spec_sectors_per_fat(b),
        spec_fat_sector(spec_boot_geometry(b), cluster) < spec_boot_geometry(b).first_data_sector,
{
    let geo = spec_boot_geometry(b);
    let bps = spec_bytes_per_sector(b);
    let spf = spec_sectors_per_fat(b);
    let fc = spec_fat_count(b);
    assert((4 * cluster) / bps < spf && 0 <= (4 * cluster) / bps) by (nonlinear_arith)
        requires
            bps > 0,
            cluster >= 0,
            4 * cluster < spf * bps,
    ;
    assert(spf <= fc * spf) by (nonlinear_arith)
        requires
            fc >= 1,
            spf >= 0,
    ;
    assert(0 <= spec_boot_root_dir_sectors(b)) by (nonlinear_arith)
        requires
            bps > 0,
            spec_boot_root_dir_sectors(b) == (spec_root_entry_count(b) * 32 + (bps - 1)) / bps,
            spec_root_entry_count(b) >= 0,
    ;
}

} // verus!

verus! {

/// Walking the root directory starts where walking the directory whose first
/// cluster is the root cluster starts.
pub proof fn lemma_root_is_root_cluster(fs: FATFileSystem)
    ensures
        fs.selected_cluster(DirectorySelector::Root) == fs.selected_cluster(
            DirectorySelector::Normal(fs.spec_root_cluster() as u32),
        ),
{
}

} // verus!

verus! {

/// Past its earlier checks, a boot sector is decided by the number of whole
/// clusters its data region (total sectors minus the sectors before the data
/// region) holds: it opens exactly when the data region holds at least 65525
/// clusters' worth of sectors, is refused as FAT16 between 4085 and 65524, and as
/// FAT12 below 4085. The cluster count is the number of whole clusters that fit.
pub proof fn lemma_variant_counts_whole_clusters(b: Seq<u8>)
    requires
        spec_bytes_per_sector(b) > 0,
        spec_boot_meta_sectors(b) <= u32::MAX,
        spec_boot_meta_sectors(b) <= spec_total_sectors(b),
        spec_sectors_per_cluster(b) > 0,
    ensures
        ({
            let data = spec_total_sectors(b) - spec_boot_meta_sectors(b);
            let spc = spec_sectors_per_cluster(b);
            &&& spec_boot_cluster_count(b) * spc <= data < (spec_boot_cluster_count(b) + 1) * spc
            &&& (spec_check_boot_sector(b) is Ok <==> data >= 65525 * spc)
            &&& (spec_check_boot_sector(b) == Err::<(), BootSectorError>(
                BootSectorError::UnsupportedVariant(Variant::Fat16),
            ) <==> 4085 * spc <= data < 65525 * spc)
            &&& (spec_check_boot_sector(b) == Err::<(), BootSectorError>(
                BootSectorError::UnsupportedVariant(Variant::Fat12),
            ) <==> data < 4085 * spc)
        }),
{
    let data = spec_total_sectors(b) - spec_boot_meta_sectors(b);
    let spc = spec_sectors_per_cluster(b);
    let count = spec_boot_cluster_count(b);
    assert(count * spc <= data < (count + 1) * spc) by (nonlinear_arith)
        requires
            count == data / spc,
            spc > 0,
            data >= 0,
    ;
    assert(count >= 65525 <==> data >= 65525 * spc) by (nonlinear_arith)
        requires
            count * spc <= data < (count + 1) * spc,
            spc > 0,
    ;
    assert(count >= 4085 <==> data >= 4085 * spc) by (nonlinear_arith)
        requires
            count * spc <= data < (count + 1) * spc,
            spc > 0,
    ;
}

/// Reading a file and walking a directory place a cluster at the same sectors:
/// the first sector that a read of cluster `cluster` starts at is sector 0 of that
/// cluster for a walker, and the walker's sectors of the cluster follow it.
pub proof fn lemma_read_and_walk_agree(geo: FATGeometry, cluster: int, j: int)
    requires
        geometry_valid(geo),
        cluster >= 2,
        0 <= j < geo.cluster_size_sectors,
    ensures
        spec_cluster_sector(geo, cluster, j) == spec_first_sector_of_cluster(
            cluster,
            geo.cluster_size_sectors as int,
            geo.first_data_sector as int,
        ) + j,
{
}

} // verus!

verus! {

/// The file system opened from boot sector `b` lays out, in order, the reserved
/// sectors, every copy of the FAT, the fixed root directory (the fewest whole
/// sectors that hold its entries), and then the data region.
pub proof fn lemma_boot_layout(b: Seq<u8>)
    requires
        b.len() >= FAT32_BPB_SIZE,
        spec_check_boot_sector(b) is Ok,
    ensures
        spec_boot_geometry(b).first_fat_sector == spec_reserved_sector_count(b),
        spec_boot_geometry(b).first_data_sector - spec_boot_geometry(b).first_fat_sector
            == spec_fat_count(b) * spec_sectors_per_fat(b) + spec_boot_root_dir_sectors(b),
        spec_boot_root_dir_sectors(b) * spec_bytes_per_sector(b) >= spec_root_entry_count(b) * 32,
        spec_boot_root_dir_sectors(b) == 0 || (spec_boot_root_dir_sectors(b) - 1)
            * spec_bytes_per_sector(b) < spec_root_entry_count(b) * 32,
{
    lemma_root_dir_sectors_hold_entries(spec_root_entry_count(b), spec_bytes_per_sector(b));
    assert(0 <= spec_fat_count(b) * spec_sectors_per_fat(b)) by (nonlinear_arith)
        requires
            spec_fat_count(b) >= 0,
            spec_sectors_per_fat(b) >= 0,
    ;
}

} // verus!
