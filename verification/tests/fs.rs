use littlefs2::backend::{
    attribute_from, available_blocks_from, byte_offset, count_within, dir_entry_from,
    error_code_from,
    len_for_backend, metadata, result_from, space_of, u32_result, Info, TYPE_DIR, TYPE_REG,
};
use littlefs2::{
    Attribute, DirEntry, Error, FileOpenFlags, FileType, Metadata, OpenOptions, PathBuf,
};

fn path_buf(text: &str) -> PathBuf {
    PathBuf::try_from(text).unwrap()
}

fn info(type_: u8, size: u32, name: &[u8]) -> Info {
    let mut buf = [0u8; 256];
    buf[..name.len()].copy_from_slice(name);
    Info {
        type_,
        size,
        name: buf,
    }
}

#[test]
fn file_types_tell_files_from_directories() {
    assert!(FileType::Dir.is_dir());
    assert!(!FileType::Dir.is_file());
    assert!(FileType::File.is_file());
    assert!(!FileType::File.is_dir());
}

#[test]
fn metadata_holds_type_and_size() {
    let file = Metadata::new(FileType::File, 37);
    assert_eq!(file.file_type(), FileType::File);
    assert!(file.is_file());
    assert!(!file.is_dir());
    assert_eq!(file.len(), 37);
    assert!(!file.is_empty());
    let dir = Metadata::new(FileType::Dir, 0);
    assert!(dir.is_dir());
    assert!(!dir.is_file());
    assert_eq!(dir.len(), 0);
    assert!(dir.is_empty());
    assert_eq!(dir, Metadata::new(FileType::Dir, 0));
    assert_ne!(dir, file);
}

#[test]
fn attribute_data_is_cut_to_the_total_size() {
    let buffer = [1u8, 2, 3, 4, 5];
    let whole = Attribute::new(&buffer, 10);
    assert_eq!(whole.data(), &[1, 2, 3, 4, 5]);
    assert_eq!(whole.total_size(), 10);
    let cut = Attribute::new(&buffer, 3);
    assert_eq!(cut.data(), &[1, 2, 3]);
    assert_eq!(cut.total_size(), 3);
    let exact = Attribute::new(&buffer, 5);
    assert_eq!(exact.data(), &buffer);
    let none = Attribute::new(&buffer, 0);
    assert_eq!(none.data(), &[] as &[u8]);
    assert_eq!(Attribute::MAX_SIZE, 1022);
}

#[test]
fn attribute_from_reports_data_and_total_size() {
    // an attribute of ten bytes read into a buffer of eleven
    let mut buffer = [0u8; 11];
    buffer[..10].copy_from_slice(b"top secret");
    let attribute = attribute_from(10, &buffer).unwrap().unwrap();
    assert_eq!(attribute.data(), b"top secret");
    assert_eq!(attribute.total_size(), 10);
    // the same attribute read into a buffer of five
    let small = *b"top s";
    let attribute = attribute_from(10, &small).unwrap().unwrap();
    assert_eq!(attribute.data(), b"top s");
    assert_eq!(attribute.total_size(), 10);
    // no attribute
    assert!(attribute_from(-61, &buffer).unwrap().is_none());
    // an empty attribute is an attribute
    let empty = attribute_from(0, &buffer).unwrap().unwrap();
    assert_eq!(empty.data(), b"");
    assert_eq!(empty.total_size(), 0);
    // other errors are handed on
    assert_eq!(
        attribute_from(-2, &buffer).map(|_| ()),
        Err(Error::no_such_entry())
    );
    assert_eq!(
        attribute_from(-28, &buffer).map(|_| ()),
        Err(Error::no_space())
    );
}

#[test]
fn dir_entry_holds_name_metadata_and_path() {
    let mut entry = DirEntry::new(
        path_buf("file.a"),
        Metadata::new(FileType::File, 37),
        path_buf("/tmp/file.a"),
    );
    assert_eq!(entry.file_name(), path_buf("file.a").as_path());
    assert_eq!(entry.path(), path_buf("/tmp/file.a").as_path());
    assert_eq!(entry.metadata(), Metadata::new(FileType::File, 37));
    assert_eq!(entry.file_type(), FileType::File);
    let same = entry;
    assert_eq!(entry, same);
    *entry.path_buf_mut() = path_buf("/ns/tmp/file.a");
    assert_eq!(entry.path().as_str(), "/ns/tmp/file.a");
    assert_eq!(entry.file_name().as_str(), "file.a");
    assert_ne!(entry, same);
}

#[test]
fn dir_entry_from_reads_the_record() {
    let dir = path_buf("/tmp");
    let record = info(TYPE_REG, 37, b"file.a");
    assert!(record.describes_entry_under(&dir.as_path()));
    let entry = dir_entry_from(&dir.as_path(), 1, &record)
        .unwrap()
        .unwrap();
    assert_eq!(entry.file_name().as_str(), "file.a");
    assert_eq!(entry.path().as_str(), "/tmp/file.a");
    assert_eq!(entry.metadata(), Metadata::new(FileType::File, 37));

    let dot = info(TYPE_DIR, 0, b".");
    let entry = dir_entry_from(&dir.as_path(), 1, &dot).unwrap().unwrap();
    assert_eq!(entry.file_name().as_str(), ".");
    assert_eq!(entry.path().as_str(), "/tmp/.");
    assert_eq!(entry.metadata(), Metadata::new(FileType::Dir, 0));

    // the end of the directory
    assert!(dir_entry_from(&dir.as_path(), 0, &record).is_none());
    // an error
    assert_eq!(
        dir_entry_from(&dir.as_path(), -5, &record),
        Some(Err(Error::io()))
    );
    assert_eq!(
        dir_entry_from(&dir.as_path(), -84, &record),
        Some(Err(Error::corruption()))
    );
}

#[test]
fn records_that_describe_no_entry_are_told() {
    let dir = path_buf("/tmp");
    assert!(!info(0, 0, b"a").describes_entry_under(&dir.as_path()));
    assert!(!info(3, 0, b"a").describes_entry_under(&dir.as_path()));
    assert!(!info(TYPE_REG, 0, b"\xffa").describes_entry_under(&dir.as_path()));
    let no_nul = Info {
        type_: TYPE_REG,
        size: 0,
        name: [b'a'; 256],
    };
    assert!(!no_nul.describes_entry_under(&dir.as_path()));
    let long = [b'a'; 251];
    // "/tmp" and a separator and 251 bytes are 256 bytes
    assert!(!info(TYPE_REG, 0, &long).describes_entry_under(&dir.as_path()));
    assert!(info(TYPE_REG, 0, &long[..250]).describes_entry_under(&dir.as_path()));
    let root = path_buf("/");
    let name = [b'a'; 254];
    assert!(info(TYPE_REG, 0, &name).describes_entry_under(&root.as_path()));
    let name = [b'a'; 255];
    assert!(!info(TYPE_REG, 0, &name).describes_entry_under(&root.as_path()));
    // an empty name and the root stay within every directory
    let full = PathBuf::try_from(&[b'a'; 255][..]).unwrap();
    assert!(info(TYPE_DIR, 0, b"").describes_entry_under(&full.as_path()));
    assert!(info(TYPE_DIR, 0, b"/").describes_entry_under(&full.as_path()));
    assert!(!info(TYPE_DIR, 0, b"b").describes_entry_under(&full.as_path()));
}

#[test]
fn metadata_reads_type_and_size() {
    assert_eq!(
        metadata(&info(TYPE_DIR, 0, b"tmp")),
        Metadata::new(FileType::Dir, 0)
    );
    assert_eq!(
        metadata(&info(TYPE_REG, 3, b"moved.txt")),
        Metadata::new(FileType::File, 3)
    );
}

#[test]
fn codes_become_results() {
    assert_eq!(result_from((), 0), Ok(()));
    assert_eq!(result_from(7u8, 12), Ok(7));
    assert_eq!(result_from((), -84), Err(Error::corruption()));
    assert_eq!(result_from((), -39), Err(Error::dir_not_empty()));
    assert_eq!(u32_result(0), Ok(0));
    assert_eq!(u32_result(11), Ok(11));
    assert_eq!(u32_result(i32::MAX), Ok(0x7fff_ffff));
    assert_eq!(u32_result(-2), Err(Error::no_such_entry()));
    assert_eq!(u32_result(i32::MIN).unwrap_err().code(), i32::MIN);
    assert_eq!(error_code_from(Ok(17usize)), 0);
    assert_eq!(error_code_from::<usize>(Err(Error::io())), -5);
}

#[test]
fn available_blocks_are_what_is_not_in_use() {
    assert_eq!(available_blocks_from(2, 128), Ok(126));
    assert_eq!(available_blocks_from(2, 512), Ok(510));
    assert_eq!(available_blocks_from(4, 512), Ok(508));
    assert_eq!(available_blocks_from(0, 512), Ok(512));
    assert_eq!(available_blocks_from(512, 512), Ok(0));
    assert_eq!(available_blocks_from(600, 512), Ok(0));
    assert_eq!(available_blocks_from(-5, 512), Err(Error::io()));
    assert_eq!(space_of(510, 256), Some(130_560));
    assert_eq!(space_of(usize::MAX, 2), None);
    assert_eq!(space_of(0, usize::MAX), Some(0));
}

#[test]
fn offsets_and_lengths_for_the_backend() {
    assert_eq!(byte_offset(3, 256, 16), Some(784));
    assert_eq!(byte_offset(0, 256, 0), Some(0));
    assert_eq!(byte_offset(0x0100_0000, 256, 0), None);
    assert_eq!(byte_offset(0x00ff_ffff, 256, 255), Some(0xffff_ffff));
    assert_eq!(byte_offset(0x00ff_ffff, 256, 256), None);
    assert_eq!(len_for_backend(0), 0);
    assert_eq!(len_for_backend(1024), 1024);
    assert_eq!(len_for_backend(0xffff_ffff), u32::MAX);
    assert_eq!(len_for_backend(usize::MAX), u32::MAX);
}

#[test]
fn open_flags_are_bits() {
    assert_eq!(FileOpenFlags::empty().bits(), 0);
    assert!(FileOpenFlags::empty().is_empty());
    assert_eq!(FileOpenFlags::READ, 0x1);
    assert_eq!(FileOpenFlags::WRITE, 0x2);
    assert_eq!(FileOpenFlags::READWRITE, 0x3);
    assert_eq!(FileOpenFlags::CREATE, 0x100);
    assert_eq!(FileOpenFlags::EXCL, 0x200);
    assert_eq!(FileOpenFlags::TRUNCATE, 0x400);
    assert_eq!(FileOpenFlags::APPEND, 0x800);
    assert_eq!(FileOpenFlags::from_bits(0x803).unwrap().bits(), 0x803);
    assert!(FileOpenFlags::from_bits(0x4).is_none());
    assert!(FileOpenFlags::from_bits(-1).is_none());
    assert_eq!(FileOpenFlags::from_bits_truncate(0x1234).bits(), 0x0200);
    assert_eq!(FileOpenFlags::from_bits_truncate(-1).bits(), 0x0f03);
    let mut flags = FileOpenFlags::from_bits_truncate(FileOpenFlags::READ);
    flags.insert(FileOpenFlags::from_bits_truncate(FileOpenFlags::APPEND));
    assert_eq!(flags.bits(), 0x801);
    assert!(flags.contains(FileOpenFlags::from_bits_truncate(FileOpenFlags::READ)));
    assert!(!flags.contains(FileOpenFlags::from_bits_truncate(FileOpenFlags::READWRITE)));
    flags.remove(FileOpenFlags::from_bits_truncate(FileOpenFlags::READ));
    assert_eq!(flags.bits(), 0x800);
    flags.set(FileOpenFlags::from_bits_truncate(FileOpenFlags::WRITE), true);
    flags.set(FileOpenFlags::from_bits_truncate(FileOpenFlags::APPEND), false);
    assert_eq!(flags.bits(), 0x2);
}

#[test]
fn open_options_set_and_clear_flags() {
    assert_eq!(OpenOptions::new().flags().bits(), 0);
    assert_eq!(OpenOptions::default(), OpenOptions::new());
    let mut options = OpenOptions::new();
    options.read(true).write(true).create_new(true);
    assert_eq!(options.flags().bits(), 0x303);
    options.create_new(false);
    assert_eq!(options.flags().bits(), 0x3);
    options.write(true).create(false).truncate(false);
    assert_eq!(options.flags().bits(), 0x3);
    options.append(true).truncate(true).read(false);
    assert_eq!(options.flags().bits(), 0xc02);
    options.append(false).create(true);
    assert_eq!(options.flags().bits(), 0x502);
    assert_eq!(OpenOptions::for_open().flags().bits(), 0x1);
    assert_eq!(OpenOptions::for_create().flags().bits(), 0x502);
    assert_eq!(
        OpenOptions::from(FileOpenFlags::from_bits_truncate(0x801)).flags().bits(),
        0x801
    );
}

#[test]
fn a_directory_is_read_in_the_order_of_its_records() {
    let dir = path_buf("/tmp");
    let records = [
        (1, info(TYPE_DIR, 0, b".")),
        (1, info(TYPE_DIR, 0, b"..")),
        (1, info(TYPE_REG, 37, b"file.a")),
        (1, info(TYPE_REG, 42, b"file.b")),
        (0, info(0, 0, b"")),
    ];
    let mut names = Vec::new();
    let mut sizes = Vec::new();
    let mut kinds = Vec::new();
    for (code, record) in records.iter() {
        match dir_entry_from(&dir.as_path(), *code, record) {
            Some(entry) => {
                let entry = entry.unwrap();
                names.push(entry.file_name().to_string());
                sizes.push(entry.metadata().len());
                kinds.push(entry.file_type());
            }
            None => break,
        }
    }
    assert_eq!(names, [".", "..", "file.a", "file.b"]);
    assert_eq!(sizes, [0, 0, 37, 42]);
    assert_eq!(
        kinds,
        [FileType::Dir, FileType::Dir, FileType::File, FileType::File]
    );
}

#[test]
fn files_are_opened_for_appending_by_a_flag() {
    let mut options = OpenOptions::new();
    options.write(true).append(true);
    assert_eq!(
        options.flags().bits(),
        FileOpenFlags::WRITE | FileOpenFlags::APPEND
    );
    assert!(options
        .flags()
        .contains(FileOpenFlags::from_bits_truncate(FileOpenFlags::APPEND)));
}

#[test]
fn counts_lie_within_the_buffer() {
    assert_eq!(count_within(0, 0), Ok(0));
    assert_eq!(count_within(11, 11), Ok(11));
    assert_eq!(count_within(3, 11), Ok(3));
    assert_eq!(count_within(12, 11), Err(Error::io()));
    assert_eq!(count_within(-28, 11), Err(Error::no_space()));
    assert_eq!(count_within(-5, 0), Err(Error::io()));
}
