//! Reading FAT file systems: boot sector geometry, FAT32 cluster chains and
//! directory entries, including long file name entries.
//!
//! The library does no device I/O itself. A [`ReadBuffer`] says which device
//! block a sector needs, lends out its storage for the read, and records the
//! sectors the read brought in; the caller performs the read in between.
pub mod entry;
pub mod fs;
pub mod math;
pub mod prim;
mod util;
pub mod walk;

pub use entry::{
    DirectoryEntriesIterator, DirectoryEntry, LongFileNameCharIterator, LongFileNameEntry,
    StandardDirectoryEntry,
};
pub use fs::{
    BootSectorError, Cluster, DirectoryInitialCluster, DirectorySelector, FATFileSystem, Variant,
};
pub use walk::{ClusterWalker, DirectoryWalker, FATGeometry, ReadBuffer, SectorSpan};
