use littlefs2::eio::{ErrorKind, Reader, Writer};
use littlefs2::io::{read_exact_outcome, write_all_step};
use littlefs2::{Error, OpenSeekFrom, Read, Result, SeekFrom, Write};
use std::cell::{Cell, RefCell};

#[test]
fn error_new_takes_negative_codes_only() {
    assert_eq!(Error::new(-5), Some(Error::io()));
    assert_eq!(Error::new(0), None);
    assert_eq!(Error::new(17), None);
    assert_eq!(Error::new(-1).unwrap().code(), -1);
    assert_eq!(Error::new(i32::MIN).unwrap().code(), i32::MIN);
    assert_eq!(i32::from(Error::io()), -5);
}

#[test]
fn documented_errors_have_their_codes() {
    assert_eq!(Error::no_such_entry().code(), -2);
    assert_eq!(Error::io().code(), -5);
    assert_eq!(Error::bad_file_descriptor().code(), -9);
    assert_eq!(Error::no_memory().code(), -12);
    assert_eq!(Error::entry_already_existed().code(), -17);
    assert_eq!(Error::path_not_dir().code(), -20);
    assert_eq!(Error::path_is_dir().code(), -21);
    assert_eq!(Error::invalid().code(), -22);
    assert_eq!(Error::file_too_big().code(), -27);
    assert_eq!(Error::no_space().code(), -28);
    assert_eq!(Error::filename_too_long().code(), -36);
    assert_eq!(Error::dir_not_empty().code(), -39);
    assert_eq!(Error::no_attribute().code(), -61);
    assert_eq!(Error::corruption().code(), -84);
}

#[test]
fn errors_fall_under_kinds() {
    assert_eq!(Error::entry_already_existed().kind(), ErrorKind::AlreadyExists);
    assert_eq!(Error::no_such_entry().kind(), ErrorKind::NotFound);
    assert_eq!(Error::bad_file_descriptor().kind(), ErrorKind::InvalidInput);
    assert_eq!(Error::invalid().kind(), ErrorKind::InvalidInput);
    assert_eq!(Error::filename_too_long().kind(), ErrorKind::InvalidInput);
    assert_eq!(Error::no_memory().kind(), ErrorKind::OutOfMemory);
    assert_eq!(Error::io().kind(), ErrorKind::Other);
    assert_eq!(Error::corruption().kind(), ErrorKind::Other);
    assert_eq!(Error::path_not_dir().kind(), ErrorKind::Other);
    assert_eq!(Error::path_is_dir().kind(), ErrorKind::Other);
    assert_eq!(Error::dir_not_empty().kind(), ErrorKind::Other);
    assert_eq!(Error::file_too_big().kind(), ErrorKind::Other);
    assert_eq!(Error::no_space().kind(), ErrorKind::Other);
    assert_eq!(Error::no_attribute().kind(), ErrorKind::Other);
    assert_eq!(Error::new(-1000).unwrap().kind(), ErrorKind::Other);
}

#[test]
fn seek_from_gives_offset_and_whence() {
    assert_eq!(SeekFrom::Start(7).off(), 7);
    assert_eq!(SeekFrom::Start(7).whence(), 0);
    assert_eq!(SeekFrom::End(-5).off(), -5);
    assert_eq!(SeekFrom::End(-5).whence(), 2);
    assert_eq!(SeekFrom::Current(3).off(), 3);
    assert_eq!(SeekFrom::Current(3).whence(), 1);
    assert_eq!(SeekFrom::Start(0x7fff_ffff).off(), i32::MAX);
    assert_eq!(SeekFrom::Start(0x8000_0000).off(), i32::MIN);
    assert_eq!(SeekFrom::Start(u32::MAX).off(), -1);
    assert_eq!(SeekFrom::Start(0x8000_0001).off(), i32::MIN + 1);
}

#[test]
fn open_seek_from_becomes_seek_from() {
    assert_eq!(SeekFrom::from(OpenSeekFrom::Start(4)), SeekFrom::Start(4));
    assert_eq!(SeekFrom::from(OpenSeekFrom::End(-4)), SeekFrom::End(-4));
}

#[test]
fn read_exact_outcome_wants_the_buffer_filled() {
    assert_eq!(read_exact_outcome(Ok(3), 3), Ok(()));
    assert_eq!(read_exact_outcome(Ok(2), 3), Err(Error::io()));
    assert_eq!(read_exact_outcome(Ok(0), 0), Ok(()));
    assert_eq!(
        read_exact_outcome(Err(Error::corruption()), 3),
        Err(Error::corruption())
    );
}

#[test]
fn write_all_step_counts_down() {
    assert_eq!(write_all_step(Ok(3), 10), Ok(7));
    assert_eq!(write_all_step(Ok(10), 10), Ok(0));
    assert_eq!(write_all_step(Ok(0), 10), Err(Error::io()));
    assert_eq!(
        write_all_step(Err(Error::no_space()), 10),
        Err(Error::no_space())
    );
}

/// A file in memory that reads and writes at most `chunk` bytes at a time.
struct Chunked {
    data: RefCell<Vec<u8>>,
    pos: Cell<usize>,
    chunk: usize,
    fail_after: usize,
}

impl Chunked {
    fn new(data: &[u8], chunk: usize) -> Self {
        Chunked {
            data: RefCell::new(data.to_vec()),
            pos: Cell::new(0),
            chunk,
            fail_after: usize::MAX,
        }
    }
}

impl Read for Chunked {
    fn read(&self, buf: &mut [u8]) -> Result<usize> {
        let data = self.data.borrow();
        let left = data.len() - self.pos.get();
        let n = buf.len().min(self.chunk).min(left);
        buf[..n].copy_from_slice(&data[self.pos.get()..self.pos.get() + n]);
        self.pos.set(self.pos.get() + n);
        Ok(n)
    }
}

impl Write for Chunked {
    fn write(&self, data: &[u8]) -> Result<usize> {
        let mut own = self.data.borrow_mut();
        if own.len() >= self.fail_after {
            return Err(Error::no_space());
        }
        let n = data.len().min(self.chunk);
        own.extend_from_slice(&data[..n]);
        Ok(n)
    }

    fn flush(&self) -> Result<()> {
        Ok(())
    }
}

#[test]
fn read_exact_reads_once() {
    let file = Chunked::new(b"hello world", 100);
    let mut buf = [0u8; 5];
    assert_eq!(file.read_exact(&mut buf), Ok(()));
    assert_eq!(&buf, b"hello");
    let mut rest = [0u8; 7];
    // six bytes are left, so the buffer is not filled
    assert_eq!(file.read_exact(&mut rest), Err(Error::io()));
    let short = Chunked::new(b"hello world", 3);
    let mut buf = [0u8; 5];
    assert_eq!(short.read_exact(&mut buf), Err(Error::io()));
}

#[test]
fn write_all_writes_every_byte() {
    let file = Chunked::new(b"", 3);
    assert_eq!(file.write_all(b"hello world"), Ok(()));
    assert_eq!(&file.data.borrow()[..], b"hello world");
    assert_eq!(file.write_all(b""), Ok(()));
    assert_eq!(&file.data.borrow()[..], b"hello world");
    let stuck = Chunked::new(b"", 0);
    assert_eq!(stuck.write_all(b"x"), Err(Error::io()));
    assert_eq!(stuck.write_all(b""), Ok(()));
    let mut full = Chunked::new(b"", 4);
    full.fail_after = 8;
    assert_eq!(full.write_all(b"0123456789ab"), Err(Error::no_space()));
    assert_eq!(&full.data.borrow()[..], b"01234567");
}

#[test]
fn reader_and_writer_hand_on() {
    let file = Chunked::new(b"abc", 2);
    let mut reader = Reader::new(&file);
    let mut buf = [0u8; 3];
    assert_eq!(reader.read(&mut buf), Ok(2));
    assert_eq!(&buf[..2], b"ab");
    assert_eq!(reader.read_exact(&mut buf[..1]), Ok(()));
    assert_eq!(buf[0], b'c');
    let mut writer = Writer::new(&file);
    assert_eq!(writer.write(b"def"), Ok(2));
    assert_eq!(writer.write_all(b"ghi"), Ok(()));
    assert_eq!(writer.flush(), Ok(()));
    assert_eq!(&file.data.borrow()[..], b"abcdeghi");
}
