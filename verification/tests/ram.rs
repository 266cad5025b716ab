use littlefs2::driver::{Geometry, Storage};
use littlefs2::ram::RamStorage;
use littlefs2::Error;

#[test]
fn a_new_storage_is_erased() {
    let ram = RamStorage::tiny();
    assert_eq!(ram.as_bytes().len(), 8 * 128);
    assert!(ram.as_bytes().iter().all(|b| *b == 0xff));
    assert_eq!(ram.read_size(), 32);
    assert_eq!(ram.write_size(), 32);
    assert_eq!(ram.block_size(), 128);
    assert_eq!(ram.block_count(), 8);
    assert_eq!(ram.block_cycles(), -1);
    assert_eq!(ram.cache_size(), 32);
    assert_eq!(ram.lookahead_size(), 1);
    assert!(Geometry::of(&ram).check());
    let large = RamStorage::large();
    assert_eq!(large.as_bytes().len(), 512 * 256);
    assert_eq!(large.lookahead_size(), 4);
    assert!(Geometry::of(&large).check());
    let sized = RamStorage::with_bytes(4096 + 100);
    assert_eq!(sized.as_bytes().len(), 4096);
    assert_eq!(sized.block_count(), 32);
    assert!(Geometry::of(&sized).check());
    let zero = RamStorage::new(Geometry::of(&ram), 0).unwrap();
    assert!(zero.as_bytes().iter().all(|b| *b == 0));
}

#[test]
fn a_storage_too_large_to_count_is_not_made() {
    let geometry = Geometry {
        block_count: usize::MAX,
        block_size: 2,
        ..Geometry::of(&RamStorage::tiny())
    };
    assert!(RamStorage::new(geometry, 0xff).is_none());
}

#[test]
fn what_is_written_is_read_back() {
    let mut ram = RamStorage::tiny();
    let data: Vec<u8> = (0..64).collect();
    assert_eq!(ram.write(128, &data), Ok(64));
    let mut buf = [0u8; 64];
    assert_eq!(ram.read(128, &mut buf), Ok(64));
    assert_eq!(&buf[..], &data[..]);
    // what lies around is as before
    let mut before = [0u8; 32];
    assert_eq!(ram.read(96, &mut before), Ok(32));
    assert_eq!(before, [0xff; 32]);
    let mut after = [0u8; 32];
    assert_eq!(ram.read(192, &mut after), Ok(32));
    assert_eq!(after, [0xff; 32]);
    // the end of the storage can be written and read
    assert_eq!(ram.write(1024 - 32, &data[..32]), Ok(32));
    assert_eq!(ram.read(1024 - 32, &mut before), Ok(32));
    assert_eq!(&before[..], &data[..32]);
    assert_eq!(ram.read(1024, &mut []), Ok(0));
}

#[test]
fn erasing_sets_the_erase_value() {
    let mut ram = RamStorage::tiny();
    assert_eq!(ram.write(0, &[0u8; 256]), Ok(256));
    assert_eq!(ram.erase(128, 128), Ok(128));
    assert!(ram.as_bytes()[..128].iter().all(|b| *b == 0));
    assert!(ram.as_bytes()[128..].iter().all(|b| *b == 0xff));
}

#[test]
fn nothing_is_done_outside_the_storage() {
    let mut ram = RamStorage::tiny();
    let mut buf = [7u8; 32];
    assert_eq!(ram.read(1024 - 31, &mut buf), Err(Error::io()));
    assert_eq!(buf, [7u8; 32]);
    assert_eq!(ram.read(2000, &mut buf), Err(Error::io()));
    assert_eq!(ram.read(usize::MAX, &mut buf), Err(Error::io()));
    assert_eq!(ram.write(1024 - 31, &buf), Err(Error::io()));
    assert_eq!(ram.write(1025, &[]), Err(Error::io()));
    assert_eq!(ram.erase(1024, 128), Err(Error::io()));
    assert_eq!(ram.erase(0, 1025), Err(Error::io()));
    assert!(ram.as_bytes().iter().all(|b| *b == 0xff));
}
