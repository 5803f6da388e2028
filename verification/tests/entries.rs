use osc_fat::{DirectoryEntriesIterator, DirectoryEntry};

fn standard_entry(name: &[u8; 11], attr: u8, high: u16, low: u16, size: u32) -> Vec<u8> {
    let mut e = vec![0u8; 32];
    e[..11].copy_from_slice(name);
    e[11] = attr;
    e[20..22].copy_from_slice(&high.to_le_bytes());
    e[26..28].copy_from_slice(&low.to_le_bytes());
    e[28..32].copy_from_slice(&size.to_le_bytes());
    e
}

fn lfn_entry(chars: &[u16]) -> Vec<u8> {
    let mut e = vec![0xFFu8; 32];
    e[0] = 0x41;
    e[11] = 0x0F;
    e[12] = 0;
    e[13] = 0x55;
    e[26] = 0;
    e[27] = 0;
    let offsets = [1, 3, 5, 7, 9, 14, 16, 18, 20, 22, 24, 28, 30];
    for (i, off) in offsets.iter().enumerate() {
        if i < chars.len() {
            e[*off..*off + 2].copy_from_slice(&chars[i].to_le_bytes());
        } else if i == chars.len() {
            e[*off..*off + 2].copy_from_slice(&0u16.to_le_bytes());
        }
    }
    e
}

#[test]
fn standard_entry_fields() {
    let bytes = standard_entry(b"README  TXT", 0x21, 0x0001, 0x0203, 1234);
    match DirectoryEntry::from(&bytes) {
        DirectoryEntry::Standard(e) => {
            assert_eq!(e.name(), b"README  ");
            assert_eq!(e.ext(), b"TXT");
            assert_eq!(e.size(), 1234);
            assert!(e.is_read_only());
            assert!(!e.is_hidden());
            assert!(!e.is_system());
            assert!(!e.is_volume_id());
            assert!(!e.is_directory());
            assert!(e.is_archive());
            assert_eq!(e.first_cluster_high(), 1);
            assert_eq!(e.first_cluster_low(), 0x0203);
            assert_eq!(e.first_cluster(), 0x0001_0203);
        }
        DirectoryEntry::LongFileName(_) => panic!("expected a standard entry"),
    }
}

#[test]
fn attribute_bits_each() {
    let flags: [(u8, usize); 6] = [(0x01, 0), (0x02, 1), (0x04, 2), (0x08, 3), (0x10, 4), (0x20, 5)];
    for (mask, which) in flags {
        let bytes = standard_entry(b"A          ", mask, 0, 0, 0);
        let e = match DirectoryEntry::from(&bytes) {
            DirectoryEntry::Standard(e) => e,
            _ => panic!("expected a standard entry"),
        };
        let got = [
            e.is_read_only(),
            e.is_hidden(),
            e.is_system(),
            e.is_volume_id(),
            e.is_directory(),
            e.is_archive(),
        ];
        for (i, g) in got.iter().enumerate() {
            assert_eq!(*g, i == which);
        }
    }
}

#[test]
fn first_cluster_combines_halves() {
    let bytes = standard_entry(b"DIR        ", 0x10, 0xABCD, 0x1234, 0);
    match DirectoryEntry::from(&bytes) {
        DirectoryEntry::Standard(e) => {
            assert!(e.is_directory());
            assert_eq!(e.first_cluster(), 0xABCD_1234);
        }
        _ => panic!("expected a standard entry"),
    }
}

#[test]
fn long_file_name_chars_stop_at_zero() {
    let name: Vec<u16> = "hello.txt".encode_utf16().collect();
    let bytes = lfn_entry(&name);
    match DirectoryEntry::from(&bytes) {
        DirectoryEntry::LongFileName(e) => {
            let mut it = e.chars();
            let mut got = Vec::new();
            while let Some(c) = it.next() {
                got.push(c);
            }
            assert_eq!(got, name);
        }
        _ => panic!("expected a long file name entry"),
    }
}

#[test]
fn long_file_name_chars_cross_all_portions() {
    let name: Vec<u16> = "abcdefghijklm".encode_utf16().collect();
    let bytes = lfn_entry(&name);
    match DirectoryEntry::from(&bytes) {
        DirectoryEntry::LongFileName(e) => {
            let mut it = e.chars();
            let mut got = Vec::new();
            while let Some(c) = it.next() {
                got.push(c);
            }
            assert_eq!(got, name);
            assert_eq!(it.next(), None);
            assert_eq!(it.next(), None);
        }
        _ => panic!("expected a long file name entry"),
    }
}

#[test]
fn long_file_name_zero_is_consumed() {
    // "ab", a zero, then "c" in the next slot: the iterator returns None at the
    // zero and goes on with the following character when asked again.
    let mut bytes = lfn_entry(&[0x61, 0x62]);
    bytes[7..9].copy_from_slice(&0x63u16.to_le_bytes());
    match DirectoryEntry::from(&bytes) {
        DirectoryEntry::LongFileName(e) => {
            let mut it = e.chars();
            assert_eq!(it.next(), Some(0x61));
            assert_eq!(it.next(), Some(0x62));
            assert_eq!(it.next(), None);
            assert_eq!(it.next(), Some(0x63));
        }
        _ => panic!("expected a long file name entry"),
    }
}

#[test]
fn occupied_entries_skip_deleted_and_stop_at_end() {
    let mut sector = Vec::new();
    sector.extend(standard_entry(b"FIRST   TXT", 0x20, 0, 3, 10));
    let mut deleted = standard_entry(b"GONE    TXT", 0x20, 0, 4, 10);
    deleted[0] = 0xE5;
    sector.extend(deleted);
    sector.extend(lfn_entry(&[0x61]));
    sector.extend(standard_entry(b"SECOND  TXT", 0x20, 0, 5, 10));
    sector.extend(vec![0u8; 32]);
    sector.extend(standard_entry(b"AFTER   TXT", 0x20, 0, 6, 10));
    sector.extend(vec![0u8; 7]);

    let mut it = DirectoryEntriesIterator::new(&sector);
    let mut kinds = Vec::new();
    while let Some(e) = it.next() {
        match e {
            DirectoryEntry::Standard(s) => kinds.push(s.first_cluster()),
            DirectoryEntry::LongFileName(_) => kinds.push(0),
        }
    }
    assert_eq!(kinds, vec![3, 0, 5]);
    // The end marker is consumed: the next call reads the entry after it.
    match it.next() {
        Some(DirectoryEntry::Standard(s)) => assert_eq!(s.first_cluster(), 6),
        _ => panic!("expected the entry after the end marker"),
    }
    // The trailing partial entry is ignored and the iterator stays exhausted.
    assert!(it.next().is_none());
    assert!(it.next().is_none());
}

#[test]
fn occupied_entries_of_empty_sector() {
    let sector: Vec<u8> = Vec::new();
    let mut it = DirectoryEntriesIterator::new(&sector);
    assert!(it.next().is_none());
}

#[test]
fn occupied_entries_come_back_by_kind() {
    let mut b = [0u8; 128];
    b[0] = 0xE5;
    b[32..43].copy_from_slice(b"FOO     TXT");
    b[43] = 0x20;
    b[96..107].copy_from_slice(b"BAR     TXT");
    let mut it = DirectoryEntriesIterator::new(&b);
    match it.next() {
        Some(DirectoryEntry::Standard(s)) => {
            assert_eq!(s.name(), b"FOO     ");
            assert_eq!(s.ext(), b"TXT");
        }
        _ => panic!("expected the standard FOO entry"),
    }
    assert!(it.next().is_none());

    let mut sector = lfn_entry(&[0x61, 0x62]);
    sector.extend(standard_entry(b"AB      TXT", 0x20, 0, 7, 1));
    let mut it = DirectoryEntriesIterator::new(&sector);
    assert!(matches!(it.next(), Some(DirectoryEntry::LongFileName(_))));
    assert!(matches!(it.next(), Some(DirectoryEntry::Standard(_))));
    assert!(it.next().is_none());
}

#[test]
fn long_file_name_ignores_order_checksum_and_zero_fields() {
    let name: Vec<u16> = "x.rs".encode_utf16().collect();
    let mut bytes = lfn_entry(&name);
    bytes[0] = 0x7F;
    bytes[12] = 0x33;
    bytes[13] = 0x99;
    bytes[26] = 0x12;
    bytes[27] = 0x34;
    match DirectoryEntry::from(&bytes) {
        DirectoryEntry::LongFileName(e) => {
            for _ in 0..2 {
                let mut it = e.chars();
                let mut got = Vec::new();
                while let Some(c) = it.next() {
                    got.push(c);
                }
                assert_eq!(got, name);
            }
        }
        _ => panic!("expected a long file name entry"),
    }
}

#[test]
fn block_to_read_held_sector_needs_nothing() {
    // A sector that is already held needs no read, whatever the block size.
    let mut rb = osc_fat::ReadBuffer::new(vec![0u8; 512], 512, 512);
    let buf = rb.take_buffer();
    rb.finish_read(buf, 9, 1);
    assert_eq!(rb.block_to_read(9), None);
    assert_eq!(rb.block_to_read(10), Some(10));
}
