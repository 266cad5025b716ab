//! What the backend is configured with at mount time.

use crate::backend::DISK_VERSION;
use crate::consts::{ATTRBYTES_MAX, FILEBYTES_MAX, FILENAME_MAX_PLUS_ONE};
use crate::driver::Geometry;
use vstd::prelude::*;

verus! {

/// Flags that change how the filesystem is mounted.
#[derive(Clone, Copy, Debug, PartialEq, Eq, Structural)]
pub struct MountFlags {
    bits: u32,
}

impl View for MountFlags {
    type V = u32;

    closed spec fn view(&self) -> u32 {
        self.bits
    }
}

impl MountFlags {
    /// Allow mounting a filesystem whose superblock states another block
    /// count than the driver declares.
    pub const DISABLE_BLOCK_COUNT_CHECK: u32 = 1;

    /// No flag.
    pub fn empty() -> (r: MountFlags)
        ensures
            r@ == 0,
    {
        MountFlags { bits: 0 }
    }

    /// The flags among the given bits; the bits that stand for no flag are dropped.
    pub fn from_bits_truncate(bits: u32) -> (r: MountFlags)
        ensures
            r@ == bits & MountFlags::DISABLE_BLOCK_COUNT_CHECK,
    {
        MountFlags { bits: bits & MountFlags::DISABLE_BLOCK_COUNT_CHECK }
    }

    /// The bits of the flags, as the backend takes them.
    pub fn bits(&self) -> (r: u32)
        ensures
            r == self@,
    {
        self.bits
    }

    /// Whether all the flags of `other` are set.
    pub fn contains(&self, other: MountFlags) -> (r: bool)
        ensures
            r == (self@ & other@ == other@),
    {
        self.bits & other.bits == other.bits
    }

    /// Sets the flags of `other`.
    pub fn insert(&mut self, other: MountFlags)
        ensures
            final(self)@ == old(self)@ | other@,
    {
        self.bits = self.bits | other.bits;
    }

    /// Clears the flags of `other`.
    pub fn remove(&mut self, other: MountFlags)
        ensures
            final(self)@ == old(self)@ & !other@,
    {
        self.bits = self.bits & !other.bits;
    }
}

impl Default for MountFlags {
    fn default() -> (r: MountFlags)
        ensures
            r@ == 0,
    {
        MountFlags::empty()
    }
}

/// How a filesystem is to be mounted.
#[derive(Clone, Copy, Debug, PartialEq, Eq, Structural)]
#[non_exhaustive]
pub struct Config {
    pub mount_flags: MountFlags,
}

impl Default for Config {
    fn default() -> (r: Config)
        ensures
            r.mount_flags@ == 0,
    {
        Config { mount_flags: MountFlags::empty() }
    }
}

/// The numbers that the backend is configured with.
#[derive(Clone, Copy, Debug, PartialEq, Eq, Structural)]
pub struct BackendConfig {
    /// Minimum size of a block read in bytes.
    pub read_size: u32,
    /// Minimum size of a block program in bytes.
    pub prog_size: u32,
    /// Size of an erasable block in bytes.
    pub block_size: u32,
    /// Number of erasable blocks on the device.
    pub block_count: u32,
    /// Number of erase cycles before metadata is moved to another block, or -1.
    pub block_cycles: i32,
    /// Size of block caches in bytes.
    pub cache_size: u32,
    /// Size of the lookahead buffer in bytes.
    pub lookahead_size: u32,
    /// Upper limit on the length of file names in bytes.
    pub name_max: u32,
    /// Upper limit on the size of files in bytes.
    pub file_max: u32,
    /// Upper limit on the size of custom attributes in bytes.
    pub attr_max: u32,
    /// Threshold for metadata compaction; zero for the backend's default.
    pub compact_thresh: u32,
    /// Upper limit on the space that metadata takes in a block; zero for the backend's default.
    pub metadata_max: u32,
    /// Upper limit on the size of inlined files; zero for the backend's default.
    pub inline_max: u32,
    /// On-disk version to use when writing.
    pub disk_version: u32,
    /// The bits of the mount flags.
    pub flags: u32,
}

/// The configuration of the backend for a storage of the geometry `g`,
/// mounted with the flags of the bits `flags`.
///
/// The sizes are those that the driver declares, but the lookahead size,
/// which the driver counts in units of 8 bytes and the backend in bytes. The
/// limits are those that the backend was built with.
pub open spec fn backend_config(g: Geometry, flags: u32) -> BackendConfig {
    BackendConfig {
        read_size: g.read_size as u32,
        prog_size: g.write_size as u32,
        block_size: g.block_size as u32,
        block_count: g.block_count as u32,
        block_cycles: g.block_cycles as i32,
        cache_size: g.cache_size as u32,
        lookahead_size: (8 * g.lookahead_size) as u32,
        name_max: 255,
        file_max: 2_147_483_647,
        attr_max: 1_022,
        compact_thresh: 0,
        metadata_max: 0,
        inline_max: 0,
        disk_version: DISK_VERSION,
        flags,
    }
}

/// The state that a mounted filesystem needs, as far as it is made of plain values.
#[derive(Clone, Copy, Debug, PartialEq, Eq, Structural)]
pub struct Allocation {
    config: BackendConfig,
}

impl View for Allocation {
    type V = BackendConfig;

    closed spec fn view(&self) -> BackendConfig {
        self.config
    }
}

impl Allocation {
    /// The allocation for a storage of the given geometry, mounted without flags.
    pub fn new(geometry: Geometry) -> (r: Allocation)
        requires
            geometry.is_valid(),
        ensures
            r@ == backend_config(geometry, 0),
    {
        Allocation::with_config(geometry, Config::default())
    }

    /// The allocation for a storage of the given geometry, which must be valid.
    pub fn with_config(geometry: Geometry, config: Config) -> (r: Allocation)
        requires
            geometry.is_valid(),
        ensures
            r@ == backend_config(geometry, config.mount_flags@),
    {
        let read_size: u32 = geometry.read_size as u32;
        let write_size: u32 = geometry.write_size as u32;
        let block_size: u32 = geometry.block_size as u32;
        let cache_size: u32 = geometry.cache_size as u32;
        let lookahead_size: u32 = 8 * (geometry.lookahead_size as u32);
        let block_cycles: i32 = geometry.block_cycles as i32;
        let block_count: u32 = geometry.block_count as u32;

        let filename_max_plus_one: u32 = FILENAME_MAX_PLUS_ONE;
        let file_max: u32 = FILEBYTES_MAX;
        let attr_max: u32 = ATTRBYTES_MAX;

        let config = BackendConfig {
            read_size,
            prog_size: write_size,
            block_size,
            block_count,
            block_cycles,
            cache_size,
            lookahead_size,
            name_max: filename_max_plus_one - 1,
            file_max,
            attr_max,
            compact_thresh: 0,
            metadata_max: 0,
            inline_max: 0,
            disk_version: DISK_VERSION,
            flags: config.mount_flags.bits(),
        };
        Allocation { config }
    }

    /// The allocation for a storage of the given geometry, where that is valid.
    pub fn try_with_config(geometry: Geometry, config: Config) -> (r: Option<Allocation>)
        ensures
            r.is_some() <==> geometry.is_valid(),
            r matches Some(a) ==> a@ == backend_config(geometry, config.mount_flags@),
    {
        if geometry.check() {
            Some(Allocation::with_config(geometry, config))
        } else {
            None
        }
    }

    /// The numbers to configure the backend with.
    pub fn config(&self) -> (r: BackendConfig)
        ensures
            r == self@,
    {
        self.config
    }
}


/// For a valid geometry the backend is configured with the very numbers
/// that the driver declares, and with a lookahead buffer of a multiple of 8
/// bytes.
pub proof fn lemma_backend_config_keeps_geometry(g: Geometry, flags: u32)
    requires
        g.is_valid(),
    ensures
        backend_config(g, flags).read_size == g.read_size,
        backend_config(g, flags).prog_size == g.write_size,
        backend_config(g, flags).block_size == g.block_size,
        backend_config(g, flags).block_count == g.block_count,
        backend_config(g, flags).block_cycles == g.block_cycles,
        backend_config(g, flags).cache_size == g.cache_size,
        backend_config(g, flags).lookahead_size == 8 * g.lookahead_size,
        backend_config(g, flags).lookahead_size % 8 == 0,
        backend_config(g, flags).block_size >= 128,
{
}

} // verus!
