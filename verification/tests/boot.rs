use osc_fat::prim::{
    CommonBiosParameterBlock, ExtendedFat32BiosParameterBlock, FileAllocationTable32,
    FileAllocationTable32Result,
};
use osc_fat::{BootSectorError, DirectorySelector, FATFileSystem, Variant};

fn boot_sector(bps: u16, spc: u8, reserved: u16, fats: u8, total32: u32, fat32: u32) -> Vec<u8> {
    let mut b = vec![0u8; 512];
    b[0] = 0xEB;
    b[3..11].copy_from_slice(b"MSWIN4.1");
    b[11..13].copy_from_slice(&bps.to_le_bytes());
    b[13] = spc;
    b[14..16].copy_from_slice(&reserved.to_le_bytes());
    b[16] = fats;
    b[32..36].copy_from_slice(&total32.to_le_bytes());
    b[36..40].copy_from_slice(&fat32.to_le_bytes());
    b[44..48].copy_from_slice(&2u32.to_le_bytes());
    b[510] = 0x55;
    b[511] = 0xAA;
    b
}

#[test]
fn variant_thresholds() {
    assert!(matches!(Variant::from_cluster_count(0), Variant::Fat12));
    assert!(matches!(Variant::from_cluster_count(4084), Variant::Fat12));
    assert!(matches!(Variant::from_cluster_count(4085), Variant::Fat16));
    assert!(matches!(Variant::from_cluster_count(65524), Variant::Fat16));
    assert!(matches!(Variant::from_cluster_count(65525), Variant::Fat32));
    assert!(matches!(Variant::from_cluster_count(u32::MAX), Variant::Fat32));
}

#[test]
fn common_bpb_fields() {
    let mut b = boot_sector(512, 8, 32, 2, 70000, 600);
    b[17..19].copy_from_slice(&224u16.to_le_bytes());
    let bpb = CommonBiosParameterBlock::from(&b);
    assert_eq!(bpb.oem(), b"MSWIN4.1");
    assert_eq!(bpb.bytes_per_sector(), 512);
    assert_eq!(bpb.sectors_per_cluster(), 8);
    assert_eq!(bpb.reserved_sector_count(), 32);
    assert_eq!(bpb.fat_count(), 2);
    assert_eq!(bpb.root_entry_count(), 224);
    assert_eq!(bpb.total_sectors(), 70000);
    b[19..21].copy_from_slice(&2880u16.to_le_bytes());
    let bpb = CommonBiosParameterBlock::from(&b);
    assert_eq!(bpb.total_sectors(), 2880);
    let ext = ExtendedFat32BiosParameterBlock::from(&b);
    assert_eq!(ext.root_cluster(), 2);
    assert_eq!(ext.sectors_per_fat(), 600);
}

#[test]
fn fat32_entries() {
    let mut t = vec![0u8; 24];
    t[0..4].copy_from_slice(&0xF000_0005u32.to_le_bytes());
    t[4..8].copy_from_slice(&0x0FFF_FFF8u32.to_le_bytes());
    t[8..12].copy_from_slice(&0xFFFF_FFFFu32.to_le_bytes());
    t[12..16].copy_from_slice(&0x0FFF_FFF7u32.to_le_bytes());
    t[16..20].copy_from_slice(&0x0FFF_FFF6u32.to_le_bytes());
    t[20..24].copy_from_slice(&0u32.to_le_bytes());
    let fat = FileAllocationTable32::from(&t);
    assert_eq!(fat.get_entry(0), FileAllocationTable32Result::NextClusterIndex(5));
    assert_eq!(fat.get_entry(4), FileAllocationTable32Result::EndOfChain);
    assert_eq!(fat.get_entry(8), FileAllocationTable32Result::EndOfChain);
    assert_eq!(fat.get_entry(12), FileAllocationTable32Result::BadCluster);
    assert_eq!(fat.get_entry(16), FileAllocationTable32Result::NextClusterIndex(0x0FFF_FFF6));
    assert_eq!(fat.get_entry(20), FileAllocationTable32Result::NextClusterIndex(0));
}

#[test]
fn check_accepts_fat32() {
    let b = boot_sector(512, 1, 32, 2, 70000, 600);
    assert_eq!(FATFileSystem::check_boot_sector(&b), Ok(()));
}

#[test]
fn check_errors() {
    let b = boot_sector(0, 1, 32, 2, 70000, 600);
    assert_eq!(FATFileSystem::check_boot_sector(&b), Err(BootSectorError::ZeroBytesPerSector));
    let b = boot_sector(512, 1, 32, 2, 70000, 0xFFFF_FFFF);
    assert_eq!(FATFileSystem::check_boot_sector(&b), Err(BootSectorError::MetaSectorOverflow));
    let b = boot_sector(512, 1, 32, 2, 1000, 600);
    assert_eq!(FATFileSystem::check_boot_sector(&b), Err(BootSectorError::MetaSectorsExceedTotal));
    let b = boot_sector(512, 0, 32, 2, 70000, 600);
    assert_eq!(FATFileSystem::check_boot_sector(&b), Err(BootSectorError::ZeroSectorsPerCluster));
    // 2000 - 1232 = 768 clusters
    let b = boot_sector(512, 1, 32, 2, 2000, 600);
    assert_eq!(
        FATFileSystem::check_boot_sector(&b),
        Err(BootSectorError::UnsupportedVariant(Variant::Fat12))
    );
    // 6232 - 1232 = 5000 clusters
    let b = boot_sector(512, 1, 32, 2, 6232, 600);
    assert_eq!(
        FATFileSystem::check_boot_sector(&b),
        Err(BootSectorError::UnsupportedVariant(Variant::Fat16))
    );
}

#[test]
fn root_directory_sectors_count_toward_meta() {
    // 512 root entries of 32 bytes take 32 sectors of 512 bytes:
    // meta = 32 + 2 * 600 + 32 = 1264; 66790 - 1264 = 65526 clusters.
    let mut b = boot_sector(512, 1, 32, 2, 66790, 600);
    b[17..19].copy_from_slice(&512u16.to_le_bytes());
    assert_eq!(FATFileSystem::check_boot_sector(&b), Ok(()));
    let fs = FATFileSystem::from_boot_sector(&b, 512);
    assert_eq!(fs.read_start_sector(2), 1264);
    // One cluster less and the volume is FAT16.
    let mut b = boot_sector(512, 1, 32, 2, 66788, 600);
    b[17..19].copy_from_slice(&512u16.to_le_bytes());
    assert_eq!(
        FATFileSystem::check_boot_sector(&b),
        Err(BootSectorError::UnsupportedVariant(Variant::Fat16))
    );
}

#[test]
fn geometry_of_opened_file_system() {
    let b = boot_sector(512, 8, 32, 2, 600_000, 600);
    assert_eq!(FATFileSystem::check_boot_sector(&b), Ok(()));
    let fs = FATFileSystem::from_boot_sector(&b, 4096);
    assert_eq!(fs.required_read_buffer_size(), 4096);
    assert_eq!(fs.read_start_sector(2), 1232);
    assert_eq!(fs.read_start_sector(5), 1232 + 3 * 8);
    let fs = FATFileSystem::from_boot_sector(&b, 512);
    assert_eq!(fs.required_read_buffer_size(), 512);
    let fs = FATFileSystem::from_boot_sector(&b, 256);
    assert_eq!(fs.required_read_buffer_size(), 512);

    let w = fs.walk_directory(vec![0u8; 512], DirectorySelector::Root);
    let cw = w.cluster_walker();
    assert_eq!(cw.absolute_sector_index(), 1232);
    assert_eq!(cw.fat_sector_index(), 32);
    assert_eq!(cw.fat_entry_offset(), 8);

    let w = fs.walk_directory(vec![0u8; 512], DirectorySelector::Normal(200));
    let cw = w.cluster_walker();
    assert_eq!(cw.absolute_sector_index(), 1232 + 198 * 8);
    assert_eq!(cw.fat_sector_index(), 33);
    assert_eq!(cw.fat_entry_offset(), 288);
}
