# osc_fat

Reading FAT32 file systems, verified with Verus.

- `src/util.rs` — little-endian fields of byte slices.
- `src/prim.rs` — the BIOS parameter block of the boot sector and FAT32 table entries.
- `src/math.rs` — sector arithmetic of the FAT layout.
- `src/entry.rs` — directory entries, long file name entries and their iterators.
- `src/walk.rs` — the read buffer of loaded sectors, cluster and directory walkers.
- `src/fs.rs` — the file system described by a boot sector.
- `app/lib.rs` — the block device and the reads it performs, driving the library.

The library performs no I/O. A `ReadBuffer` names the block to read for a
sector, lends its storage for the read and records which sectors the read
loaded; `app/` performs the read in between.
