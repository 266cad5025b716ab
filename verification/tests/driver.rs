use littlefs2::driver::{resize_zeroed, Buffer, Geometry, NotEnoughCapacity, Sealed, Storage};
use littlefs2::mount::{Allocation, Config, MountFlags};
use littlefs2::{Error, Result};

fn cached<B: Buffer>(len: usize) -> core::result::Result<usize, NotEnoughCapacity> {
    let mut buffer = B::empty();
    buffer.set_len(len)?;
    Ok(buffer.current_len())
}

#[test]
fn arrays_are_buffers_of_their_length() {
    let mut a = <[u8; 32] as Sealed>::empty();
    assert_eq!(a, [0u8; 32]);
    assert_eq!(a.current_len(), 32);
    assert_eq!(a.set_len(32), Ok(()));
    assert_eq!(a.set_len(0), Ok(()));
    assert_eq!(a.set_len(33), Err(NotEnoughCapacity));
    assert_eq!(a.current_len(), 32);
    Sealed::as_mut_slice(&mut a)[31] = 7;
    assert_eq!(Sealed::as_mut_slice(&mut a).len(), 32);
    assert_eq!(a[31], 7);
    assert_eq!(cached::<[u8; 8]>(8), Ok(8));
    assert_eq!(cached::<[u8; 8]>(9), Err(NotEnoughCapacity));
}

#[test]
fn vectors_are_buffers_that_grow() {
    let mut v = <Vec<u8> as Sealed>::empty();
    assert_eq!(v.current_len(), 0);
    assert_eq!(Sealed::set_len(&mut v, 4), Ok(()));
    assert_eq!(v, vec![0, 0, 0, 0]);
    v[1] = 7;
    assert_eq!(Sealed::set_len(&mut v, 6), Ok(()));
    assert_eq!(v, vec![0, 7, 0, 0, 0, 0]);
    assert_eq!(Sealed::set_len(&mut v, 2), Ok(()));
    assert_eq!(v, vec![0, 7]);
    assert_eq!(v.current_len(), 2);
    Sealed::as_mut_slice(&mut v)[0] = 9;
    assert_eq!(v, vec![9, 7]);
    let mut w = vec![1u8, 2, 3];
    resize_zeroed(&mut w, 5);
    assert_eq!(w, vec![1, 2, 3, 0, 0]);
    resize_zeroed(&mut w, 1);
    assert_eq!(w, vec![1]);
    assert_eq!(cached::<Vec<u8>>(700), Ok(700));
}

fn geometry() -> Geometry {
    Geometry {
        read_size: 1,
        write_size: 32,
        block_size: 256,
        block_count: 512,
        block_cycles: -1,
        cache_size: 32,
        lookahead_size: 1,
    }
}

#[test]
fn valid_geometries_are_accepted() {
    assert!(geometry().check());
    let other = Geometry {
        read_size: 20 * 5,
        write_size: 20 * 7,
        block_size: 20 * 35,
        block_count: 32,
        block_cycles: -1,
        cache_size: 700,
        lookahead_size: 16,
    };
    assert!(other.check());
    let tiny = Geometry {
        read_size: 32,
        write_size: 32,
        block_size: 128,
        block_count: 8,
        block_cycles: 100,
        cache_size: 32,
        lookahead_size: 1,
    };
    assert!(tiny.check());
    let small = Geometry {
        read_size: 16,
        write_size: 512,
        block_size: 512,
        block_count: 8,
        block_cycles: -1,
        cache_size: 512,
        lookahead_size: 1,
    };
    assert!(small.check());
}

#[test]
fn invalid_geometries_are_refused() {
    let g = geometry();
    assert!(!Geometry { read_size: 0, ..g }.check());
    assert!(!Geometry { write_size: 0, ..g }.check());
    assert!(!Geometry { block_size: 127, ..g }.check());
    assert!(!Geometry { block_size: 96, cache_size: 32, ..g }.check());
    assert!(!Geometry { block_count: 0, ..g }.check());
    assert!(!Geometry { block_cycles: 0, ..g }.check());
    assert!(!Geometry { block_cycles: -2, ..g }.check());
    assert!(!Geometry { cache_size: 0, ..g }.check());
    assert!(!Geometry { lookahead_size: 0, ..g }.check());
    // the cache is no multiple of the write size
    assert!(!Geometry { cache_size: 48, ..g }.check());
    // the cache is no multiple of the read size
    assert!(!Geometry { read_size: 3, ..g }.check());
    // the read size is larger than the cache
    assert!(!Geometry { read_size: 64, ..g }.check());
    // the block is no multiple of the cache
    assert!(!Geometry { cache_size: 96, ..g }.check());
    // the cache is larger than the block
    assert!(!Geometry { cache_size: 512, ..g }.check());
    assert!(Geometry { block_cycles: 1, ..g }.check());
    assert!(Geometry { block_size: 128, ..g }.check());
    assert!(Allocation::try_with_config(Geometry { block_size: 127, ..g }, Config::default()).is_none());
}

#[test]
fn sizes_that_do_not_fit_the_backend_are_refused() {
    let g = geometry();
    if usize::BITS > 32 {
        let big = 0x1_0000_0000u64 as usize;
        assert!(!Geometry { block_count: big, ..g }.check());
        assert!(!Geometry { block_size: big, ..g }.check());
        assert!(!Geometry { lookahead_size: 0x2000_0000, ..g }.check());
        assert!(!Geometry { block_cycles: 0x8000_0000u64 as isize, ..g }.check());
    }
    assert!(Geometry { lookahead_size: 0x1fff_ffff, ..g }.check());
    assert!(Geometry { block_cycles: 0x7fff_ffff, ..g }.check());
}

#[test]
fn allocation_configures_the_backend() {
    let config = Allocation::new(geometry()).config();
    assert_eq!(config.read_size, 1);
    assert_eq!(config.prog_size, 32);
    assert_eq!(config.block_size, 256);
    assert_eq!(config.block_count, 512);
    assert_eq!(config.block_cycles, -1);
    assert_eq!(config.cache_size, 32);
    assert_eq!(config.lookahead_size, 8);
    assert_eq!(config.name_max, 255);
    assert_eq!(config.file_max, 2_147_483_647);
    assert_eq!(config.attr_max, 1_022);
    assert_eq!(config.compact_thresh, 0);
    assert_eq!(config.metadata_max, 0);
    assert_eq!(config.inline_max, 0);
    assert_eq!(config.disk_version, 0x0002_0000);
    assert_eq!(config.flags, 0);

    let mut with_flags = Config::default();
    with_flags.mount_flags = MountFlags::from_bits_truncate(MountFlags::DISABLE_BLOCK_COUNT_CHECK);
    let other = Geometry {
        lookahead_size: 16,
        block_cycles: 500,
        ..geometry()
    };
    let config = Allocation::with_config(other, with_flags).config();
    assert_eq!(config.lookahead_size, 128);
    assert_eq!(config.block_cycles, 500);
    assert_eq!(config.flags, 1);
    assert_eq!(
        Allocation::try_with_config(other, with_flags),
        Some(Allocation::with_config(other, with_flags))
    );
}

#[test]
fn mount_flags_are_bits() {
    assert_eq!(MountFlags::empty().bits(), 0);
    assert_eq!(MountFlags::default(), MountFlags::empty());
    assert_eq!(MountFlags::from_bits_truncate(0xff).bits(), 1);
    let mut flags = MountFlags::empty();
    let check = MountFlags::from_bits_truncate(MountFlags::DISABLE_BLOCK_COUNT_CHECK);
    assert!(!flags.contains(check));
    flags.insert(check);
    assert!(flags.contains(check));
    assert_eq!(flags.bits(), 1);
    flags.remove(check);
    assert_eq!(flags.bits(), 0);
}

struct Ram {
    buf: Vec<u8>,
}

impl Storage for Ram {
    fn read_size(&self) -> usize {
        1
    }
    fn write_size(&self) -> usize {
        32
    }
    fn block_size(&self) -> usize {
        256
    }
    fn block_count(&self) -> usize {
        128
    }
    type CACHE_BUFFER = [u8; 32];
    fn cache_size(&self) -> usize {
        32
    }
    type LOOKAHEAD_BUFFER = [u8; 8];
    fn lookahead_size(&self) -> usize {
        1
    }
    fn read(&mut self, off: usize, buf: &mut [u8]) -> Result<usize> {
        buf.copy_from_slice(&self.buf[off..off + buf.len()]);
        Ok(buf.len())
    }
    fn write(&mut self, off: usize, data: &[u8]) -> Result<usize> {
        self.buf[off..off + data.len()].copy_from_slice(data);
        Ok(data.len())
    }
    fn erase(&mut self, off: usize, len: usize) -> Result<usize> {
        if off + len > self.buf.len() {
            return Err(Error::io());
        }
        self.buf[off..off + len].fill(0xff);
        Ok(len)
    }
}

#[test]
fn geometry_is_what_the_driver_declares() {
    let ram = Ram {
        buf: vec![0xff; 128 * 256],
    };
    let g = Geometry::of(&ram);
    assert_eq!(
        g,
        Geometry {
            read_size: 1,
            write_size: 32,
            block_size: 256,
            block_count: 128,
            block_cycles: -1,
            cache_size: 32,
            lookahead_size: 1,
        }
    );
    assert!(g.check());
    assert_eq!(g.total_blocks(), 128);
    assert_eq!(g.total_space(), 32_768);
}
