use osc_fat::prim::FileAllocationTable32Result;
use osc_fat::{
    DirectoryEntry, DirectorySelector, DirectoryWalker, FATFileSystem, ReadBuffer, SectorSpan,
};

/// A disk in memory that reads whole blocks, as many as fit in the buffer.
struct Disk {
    block_size: usize,
    data: Vec<u8>,
}

impl Disk {
    fn read_blocks(&self, block_index: u64, buffer: &mut [u8]) -> u64 {
        let start = block_index as usize * self.block_size;
        let mut n = 0;
        while (n + 1) * self.block_size <= buffer.len()
            && start + (n + 1) * self.block_size <= self.data.len()
        {
            n += 1;
        }
        let len = n * self.block_size;
        buffer[..len].copy_from_slice(&self.data[start..start + len]);
        n as u64
    }
}

fn load(rb: &mut ReadBuffer, disk: &Disk, sector: u64) {
    if let Some(block) = rb.block_to_read(sector) {
        let mut buf = rb.take_buffer();
        let n = disk.read_blocks(block, &mut buf);
        rb.finish_read(buf, sector, n);
    }
}

fn load_walker(w: &mut DirectoryWalker, disk: &Disk, sector: u64) {
    load(w.cluster_walker_mut().buffer_mut(), disk, sector);
}

fn entry(name: &[u8; 11], attr: u8, cluster: u32) -> [u8; 32] {
    let mut e = [0u8; 32];
    e[..11].copy_from_slice(name);
    e[11] = attr;
    e[20..22].copy_from_slice(&((cluster >> 16) as u16).to_le_bytes());
    e[26..28].copy_from_slice(&(cluster as u16).to_le_bytes());
    e
}

const SS: usize = 512;

fn image(spc: u8) -> Vec<u8> {
    // Boot sector: 512-byte sectors, 32 reserved sectors, 2 FATs of 600 sectors.
    let data_start = 1232usize;
    let sectors = data_start + 4 * spc as usize + 16;
    let mut d = vec![0u8; sectors * SS];
    d[11..13].copy_from_slice(&512u16.to_le_bytes());
    d[13] = spc;
    d[14..16].copy_from_slice(&32u16.to_le_bytes());
    d[16] = 2;
    d[32..36].copy_from_slice(&600_000u32.to_le_bytes());
    d[36..40].copy_from_slice(&600u32.to_le_bytes());
    d[44..48].copy_from_slice(&2u32.to_le_bytes());
    // FAT: cluster 2 -> 4 -> end.
    let fat = 32 * SS;
    d[fat + 8..fat + 12].copy_from_slice(&4u32.to_le_bytes());
    d[fat + 16..fat + 20].copy_from_slice(&0x0FFF_FFFFu32.to_le_bytes());
    let c2 = data_start * SS;
    d[c2..c2 + 32].copy_from_slice(&entry(b"ONE     TXT", 0x20, 10));
    d[c2 + 32..c2 + 64].copy_from_slice(&entry(b"TWO     TXT", 0x20, 11));
    let c4_last = (data_start + 2 * spc as usize + spc as usize - 1) * SS;
    d[c4_last..c4_last + 32].copy_from_slice(&entry(b"THREE   TXT", 0x10, 12));
    d
}

fn walk(spc: u8, block_size: usize) -> (Vec<u32>, Vec<u64>) {
    let disk = Disk { block_size, data: image(spc) };
    let boot = &disk.data[..512];
    assert_eq!(FATFileSystem::check_boot_sector(boot), Ok(()));
    let fs = FATFileSystem::from_boot_sector(boot, block_size as u16);
    let size = fs.required_read_buffer_size();
    let mut w = fs.walk_directory(vec![0u8; size], DirectorySelector::Root);
    let mut clusters = Vec::new();
    let mut sectors = Vec::new();
    loop {
        let s = w.cluster_walker().absolute_sector_index();
        load_walker(&mut w, &disk, s);
        sectors.push(s);
        let mut it = w.occupied_entries();
        while let Some(e) = it.next() {
            if let DirectoryEntry::Standard(e) = e {
                clusters.push(e.first_cluster());
            }
        }
        if w.cluster_walker().is_last_sector() {
            let fat_sector = w.cluster_walker().fat_sector_index();
            load_walker(&mut w, &disk, fat_sector);
            let e = w.cluster_walker().fat_entry();
            assert_ne!(e, FileAllocationTable32Result::BadCluster);
        }
        match w.next() {
            Some(next) => w = next,
            None => break,
        }
    }
    (clusters, sectors)
}

#[test]
fn directory_walk_follows_chain_one_sector_clusters() {
    let (clusters, sectors) = walk(1, 512);
    assert_eq!(clusters, vec![10, 11, 12]);
    assert_eq!(sectors, vec![1232, 1234]);
}

#[test]
fn directory_walk_with_large_blocks() {
    let (clusters, sectors) = walk(1, 4096);
    assert_eq!(clusters, vec![10, 11, 12]);
    assert_eq!(sectors, vec![1232, 1234]);
}

#[test]
fn directory_walk_keeps_sector_index_across_clusters() {
    // With two sectors per cluster, the walk reads both sectors of cluster 2
    // and then, keeping its sector index, only the last sector of cluster 4.
    let (clusters, sectors) = walk(2, 512);
    assert_eq!(clusters, vec![10, 11, 12]);
    assert_eq!(sectors, vec![1232, 1233, 1237]);
}

#[test]
fn read_buffer_protocol() {
    let mut rb = ReadBuffer::new(vec![0u8; 1024], 512, 1024);
    assert!(rb.get_loaded_sector(5).is_none());
    assert_eq!(rb.block_to_read(5), Some(2));
    let mut buf = rb.take_buffer();
    assert_eq!(buf.len(), 1024);
    for (i, b) in buf.iter_mut().enumerate() {
        *b = (i / 512) as u8 + 1;
    }
    rb.finish_read(buf, 5, 1);
    assert_eq!(rb.block_to_read(5), None);
    assert_eq!(rb.block_to_read(4), None);
    assert_eq!(rb.block_to_read(6), Some(3));
    assert_eq!(rb.get_loaded_sector(4).unwrap(), &[1u8; 512][..]);
    assert_eq!(rb.get_loaded_sector(5).unwrap(), &[2u8; 512][..]);
    assert!(rb.get_loaded_sector(6).is_none());
    assert!(rb.get_loaded_sector(3).is_none());
    let _ = SectorSpan { start: 4, end: 6 };
}

#[test]
fn read_buffer_small_blocks() {
    // 512-byte sectors on a device with 256-byte blocks: sector 3 is blocks 6 and 7.
    let mut rb = ReadBuffer::new(vec![0u8; 1024], 512, 256);
    assert_eq!(rb.block_to_read(3), Some(6));
    let buf = rb.take_buffer();
    rb.finish_read(buf, 3, 4);
    assert!(rb.get_loaded_sector(3).is_some());
    assert!(rb.get_loaded_sector(4).is_some());
    assert!(rb.get_loaded_sector(5).is_none());
    assert!(rb.get_loaded_sector(2).is_none());
}

#[test]
fn read_buffer_sector_past_storage_is_not_readable() {
    let mut rb = ReadBuffer::new(vec![0u8; 512], 512, 512);
    let buf = rb.take_buffer();
    rb.finish_read(buf, 3, 2);
    assert_eq!(rb.loaded_sectors(), Some(SectorSpan { start: 3, end: 5 }));
    assert!(rb.is_readable(3));
    assert!(!rb.is_readable(4));
    assert!(!rb.is_readable(5));
    assert!(rb.get_loaded_sector(3).is_some());
}

#[test]
fn take_buffer_empties_the_buffer() {
    let mut rb = ReadBuffer::new(vec![7u8; 512], 512, 512);
    let buf = rb.take_buffer();
    rb.finish_read(buf, 0, 1);
    assert!(rb.is_readable(0));
    let buf = rb.take_buffer();
    assert_eq!(buf, vec![7u8; 512]);
    assert_eq!(rb.loaded_sectors(), None);
    assert!(!rb.is_readable(0));
    assert_eq!(rb.sector_size_bytes(), 512);
    assert_eq!(rb.block_size_bytes(), 512);
}
