//! What the filesystem tells about its entries, and how files are opened.

use crate::path::{is_path_text, Path, PathBuf};
use vstd::prelude::*;
use vstd::slice::slice_subrange;

verus! {

/// Definition of file open flags which can be mixed and matched as appropriate. These definitions
/// are reminiscent of the ones defined by POSIX.
#[derive(Clone, Copy, Debug, PartialEq, Eq, Structural)]
pub struct FileOpenFlags {
    bits: i32,
}

impl View for FileOpenFlags {
    type V = i32;

    closed spec fn view(&self) -> i32 {
        self.bits
    }
}

impl FileOpenFlags {
    /// Open file in read only mode.
    pub const READ: i32 = 0x1;

    /// Open file in write only mode.
    pub const WRITE: i32 = 0x2;

    /// Open file for reading and writing.
    pub const READWRITE: i32 = 0x3;

    /// Create the file if it does not exist.
    pub const CREATE: i32 = 0x0100;

    /// Fail if creating a file that already exists.
    pub const EXCL: i32 = 0x0200;

    /// Truncate the file if it already exists.
    pub const TRUNCATE: i32 = 0x0400;

    /// Open the file in append only mode.
    pub const APPEND: i32 = 0x0800;

    /// All the bits that stand for a flag.
    pub const ALL: i32 = 0x0f03;

    /// No flag.
    pub fn empty() -> (r: FileOpenFlags)
        ensures
            r@ == 0,
    {
        FileOpenFlags { bits: 0 }
    }

    /// The flags with the given bits, where each of them stands for a flag.
    pub fn from_bits(bits: i32) -> (r: Option<FileOpenFlags>)
        ensures
            r.is_some() <==> bits & !FileOpenFlags::ALL == 0,
            r matches Some(f) ==> f@ == bits,
    {
        if bits & !FileOpenFlags::ALL == 0 {
            Some(FileOpenFlags { bits })
        } else {
            None
        }
    }

    /// The flags among the given bits; the bits that stand for no flag are dropped.
    pub fn from_bits_truncate(bits: i32) -> (r: FileOpenFlags)
        ensures
            r@ == bits & FileOpenFlags::ALL,
    {
        FileOpenFlags { bits: bits & FileOpenFlags::ALL }
    }

    /// The bits of the flags, as the backend takes them.
    pub fn bits(&self) -> (r: i32)
        ensures
            r == self@,
    {
        self.bits
    }

    /// Whether no flag is set.
    pub fn is_empty(&self) -> (r: bool)
        ensures
            r == (self@ == 0),
    {
        self.bits == 0
    }

    /// Whether all the flags of `other` are set.
    pub fn contains(&self, other: FileOpenFlags) -> (r: bool)
        ensures
            r == (self@ & other@ == other@),
    {
        self.bits & other.bits == other.bits
    }

    /// Sets the flags of `other`.
    pub fn insert(&mut self, other: FileOpenFlags)
        ensures
            final(self)@ == old(self)@ | other@,
    {
        self.bits = self.bits | other.bits;
    }

    /// Clears the flags of `other`.
    pub fn remove(&mut self, other: FileOpenFlags)
        ensures
            final(self)@ == old(self)@ & !other@,
    {
        self.bits = self.bits & !other.bits;
    }

    /// Sets or clears the flags of `other`.
    pub fn set(&mut self, other: FileOpenFlags, value: bool)
        ensures
            final(self)@ == if value {
                old(self)@ | other@
            } else {
                old(self)@ & !other@
            },
    {
        if value {
            self.insert(other);
        } else {
            self.remove(other);
        }
    }
}

/// Regular file vs directory
#[derive(Clone, Copy, Debug, Hash, PartialEq, Eq, Structural)]
pub enum FileType {
    File,
    Dir,
}

impl FileType {
    pub fn is_dir(&self) -> (r: bool)
        ensures
            r == (*self == FileType::Dir),
    {
        *self == FileType::Dir
    }

    pub fn is_file(&self) -> (r: bool)
        ensures
            r == (*self == FileType::File),
    {
        *self == FileType::File
    }
}

/// File type (regular vs directory) and size of a file.
#[derive(Clone, Copy, Debug, PartialEq, Eq, Structural)]
pub struct Metadata {
    file_type: FileType,
    size: usize,
}

impl Metadata {
    /// Whether a file or a directory is described.
    pub closed spec fn spec_file_type(&self) -> FileType {
        self.file_type
    }

    /// The size in bytes of what is described.
    pub closed spec fn spec_len(&self) -> usize {
        self.size
    }

    pub fn new(file_type: FileType, size: usize) -> (r: Metadata)
        ensures
            r.spec_file_type() == file_type,
            r.spec_len() == size,
    {
        Metadata { file_type, size }
    }

    pub fn file_type(&self) -> (r: FileType)
        ensures
            r == self.spec_file_type(),
    {
        self.file_type
    }

    pub fn is_dir(&self) -> (r: bool)
        ensures
            r == (self.spec_file_type() == FileType::Dir),
    {
        self.file_type().is_dir()
    }

    pub fn is_file(&self) -> (r: bool)
        ensures
            r == (self.spec_file_type() == FileType::File),
    {
        self.file_type().is_file()
    }

    pub fn len(&self) -> (r: usize)
        ensures
            r == self.spec_len(),
    {
        self.size
    }

    pub fn is_empty(&self) -> (r: bool)
        ensures
            r == (self.spec_len() == 0),
    {
        self.size == 0
    }
}

/// Two descriptions of the same type and size are the same.
pub proof fn lemma_metadata_is_its_fields(a: Metadata, b: Metadata)
    requires
        a.spec_file_type() == b.spec_file_type(),
        a.spec_len() == b.spec_len(),
    ensures
        a == b,
{
}

/// Custom user attribute that can be set on files and directories.
///
/// This struct stores the data that has been read from the filesystem and
/// the total size of the attribute on the filesystem.  The maximum size of an
/// attribute is [`Attribute::MAX_SIZE`].
#[derive(Clone, Copy, Debug)]
pub struct Attribute<'a> {
    data: &'a [u8],
    total_size: usize,
}

impl<'a> Attribute<'a> {
    pub const MAX_SIZE: u32 = 1_022;

    #[verifier::type_invariant]
    pub closed spec fn well_formed(self) -> bool {
        self.data@.len() <= self.total_size
    }

    /// The bytes of the attribute that were read.
    pub closed spec fn spec_data(&self) -> Seq<u8> {
        self.data@
    }

    /// The size of the attribute on the filesystem.
    pub closed spec fn spec_total_size(&self) -> usize {
        self.total_size
    }

    /// The attribute of the given size of which `data` holds the start: as
    /// many bytes as `data` has room for, and not more than the attribute has.
    pub fn new(data: &'a [u8], total_size: usize) -> (r: Attribute<'a>)
        ensures
            r.spec_total_size() == total_size,
            r.spec_data() == data@.take(
                if data@.len() <= total_size {
                    data@.len() as int
                } else {
                    total_size as int
                },
            ),
    {
        let n = if data.len() <= total_size {
            data.len()
        } else {
            total_size
        };
        let data = slice_subrange(data, 0, n);
        Attribute { data, total_size }
    }

    pub fn data(&self) -> (r: &'a [u8])
        ensures
            r@ == self.spec_data(),
            r@.len() <= self.spec_total_size(),
    {
        proof {
            use_type_invariant(self);
        }
        self.data
    }

    pub fn total_size(&self) -> (r: usize)
        ensures
            r == self.spec_total_size(),
    {
        self.total_size
    }
}

/// An entry of a directory: its name, what it is, and where it stands.
#[derive(Clone, Copy, Debug)]
pub struct DirEntry {
    file_name: PathBuf,
    metadata: Metadata,
    path: PathBuf,
}

impl DirEntry {
    /// The name of the entry.
    pub closed spec fn spec_file_name(&self) -> Seq<u8> {
        self.file_name@
    }

    /// The type and size of the entry.
    pub closed spec fn spec_metadata(&self) -> Metadata {
        self.metadata
    }

    /// The full path of the entry.
    pub closed spec fn spec_path(&self) -> Seq<u8> {
        self.path@
    }

    pub fn new(file_name: PathBuf, metadata: Metadata, path: PathBuf) -> (r: DirEntry)
        ensures
            r.spec_file_name() == file_name@,
            r.spec_metadata() == metadata,
            r.spec_path() == path@,
    {
        DirEntry { file_name, metadata, path }
    }

    /// Returns the metadata for the file that this entry points at.
    pub fn metadata(&self) -> (r: Metadata)
        ensures
            r == self.spec_metadata(),
    {
        self.metadata
    }

    /// Returns the file type for the file that this entry points at.
    pub fn file_type(&self) -> (r: FileType)
        ensures
            r == self.spec_metadata().spec_file_type(),
    {
        self.metadata.file_type()
    }

    /// Returns the bare file name of this directory entry without any other leading path component.
    pub fn file_name(&self) -> (r: Path<'_>)
        ensures
            r@ == self.spec_file_name(),
            is_path_text(r@),
    {
        self.file_name.as_path()
    }

    /// Returns the full path to the file that this entry represents.
    ///
    /// The full path is created by joining the path of the directory that was read with the filename of this entry.
    pub fn path(&self) -> (r: Path<'_>)
        ensures
            r@ == self.spec_path(),
            is_path_text(r@),
    {
        self.path.as_path()
    }

    /// The full path of the entry, to be changed in place: this serves to
    /// put entries under another name space.
    pub fn path_buf_mut(&mut self) -> (r: &mut PathBuf)
        ensures
            r@ == old(self).spec_path(),
            final(self).spec_path() == final(r)@,
            final(self).spec_file_name() == old(self).spec_file_name(),
            final(self).spec_metadata() == old(self).spec_metadata(),
    {
        &mut self.path
    }
}

impl PartialEq for DirEntry {
    fn eq(&self, other: &DirEntry) -> (r: bool) {
        self.file_name == other.file_name && self.metadata == other.metadata && self.path
            == other.path
    }
}

impl vstd::std_specs::cmp::PartialEqSpecImpl for DirEntry {
    open spec fn obeys_eq_spec() -> bool {
        true
    }

    open spec fn eq_spec(&self, other: &DirEntry) -> bool {
        &&& self.spec_file_name() == other.spec_file_name()
        &&& self.spec_metadata() == other.spec_metadata()
        &&& self.spec_path() == other.spec_path()
    }
}

impl Eq for DirEntry {

}


/// The flags of an `OpenOptions` on which the one that `bits` stands for was
/// switched on or off.
pub open spec fn with_flag(flags: i32, bits: i32, on: bool) -> i32 {
    if on {
        flags | bits
    } else {
        flags & !bits
    }
}

/// Options and flags which can be used to configure how a file is opened.
///
/// This builder exposes the ability to configure how a File is opened and what operations
/// are permitted on the open file.
#[derive(Clone, Copy, Debug, PartialEq, Eq, Structural)]
pub struct OpenOptions(FileOpenFlags);

impl View for OpenOptions {
    type V = i32;

    /// The bits of the flags that are set.
    closed spec fn view(&self) -> i32 {
        self.0@
    }
}

impl OpenOptions {
    /// No flag is set.
    pub fn new() -> (r: OpenOptions)
        ensures
            r@ == 0,
    {
        OpenOptions(FileOpenFlags::empty())
    }

    /// The flags that were chosen.
    pub fn flags(&self) -> (r: FileOpenFlags)
        ensures
            r@ == self@,
    {
        self.0
    }

    pub fn read(&mut self, read: bool) -> (r: &mut OpenOptions)
        ensures
            r@ == with_flag(old(self)@, FileOpenFlags::READ, read),
            *final(self) == *final(r),
    {
        self.0.set(FileOpenFlags { bits: FileOpenFlags::READ }, read);
        self
    }

    pub fn write(&mut self, write: bool) -> (r: &mut OpenOptions)
        ensures
            r@ == with_flag(old(self)@, FileOpenFlags::WRITE, write),
            *final(self) == *final(r),
    {
        self.0.set(FileOpenFlags { bits: FileOpenFlags::WRITE }, write);
        self
    }

    pub fn append(&mut self, append: bool) -> (r: &mut OpenOptions)
        ensures
            r@ == with_flag(old(self)@, FileOpenFlags::APPEND, append),
            *final(self) == *final(r),
    {
        self.0.set(FileOpenFlags { bits: FileOpenFlags::APPEND }, append);
        self
    }

    pub fn create(&mut self, create: bool) -> (r: &mut OpenOptions)
        ensures
            r@ == with_flag(old(self)@, FileOpenFlags::CREATE, create),
            *final(self) == *final(r),
    {
        self.0.set(FileOpenFlags { bits: FileOpenFlags::CREATE }, create);
        self
    }

    /// Asks for a file that did not exist before: both the flag to create
    /// and the flag to fail on an existing file are set, or both cleared.
    pub fn create_new(&mut self, create_new: bool) -> (r: &mut OpenOptions)
        ensures
            r@ == with_flag(
                with_flag(old(self)@, FileOpenFlags::EXCL, create_new),
                FileOpenFlags::CREATE,
                create_new,
            ),
            *final(self) == *final(r),
    {
        self.0.set(FileOpenFlags { bits: FileOpenFlags::EXCL }, create_new);
        self.0.set(FileOpenFlags { bits: FileOpenFlags::CREATE }, create_new);
        self
    }

    pub fn truncate(&mut self, truncate: bool) -> (r: &mut OpenOptions)
        ensures
            r@ == with_flag(old(self)@, FileOpenFlags::TRUNCATE, truncate),
            *final(self) == *final(r),
    {
        self.0.set(FileOpenFlags { bits: FileOpenFlags::TRUNCATE }, truncate);
        self
    }

    /// The options with which a file is opened for reading.
    pub fn for_open() -> (r: OpenOptions)
        ensures
            r@ == FileOpenFlags::READ,
    {
        let mut o = OpenOptions::new();
        o.read(true);
        assert(0i32 | 0x1 == 0x1) by (bit_vector);
        o
    }

    /// The options with which a file is created, or emptied where it exists, for writing.
    pub fn for_create() -> (r: OpenOptions)
        ensures
            r@ == FileOpenFlags::WRITE | FileOpenFlags::CREATE | FileOpenFlags::TRUNCATE,
    {
        let mut o = OpenOptions::new();
        o.write(true).create(true).truncate(true);
        assert(((0i32 | 0x2) | 0x100) | 0x400 == (0x2i32 | 0x100) | 0x400) by (bit_vector);
        o
    }
}

impl Default for OpenOptions {
    fn default() -> (r: OpenOptions)
        ensures
            r@ == 0,
    {
        OpenOptions::new()
    }
}

impl From<FileOpenFlags> for OpenOptions {
    fn from(flags: FileOpenFlags) -> (r: OpenOptions)
        ensures
            r@ == flags@,
    {
        OpenOptions(flags)
    }
}

impl vstd::std_specs::convert::FromSpecImpl<FileOpenFlags> for OpenOptions {
    open spec fn obeys_from_spec() -> bool {
        false
    }

    open spec fn from_spec(v: FileOpenFlags) -> OpenOptions {
        arbitrary()
    }
}


/// Switching a flag on sets it, switching it off clears it, and the other
/// flags stay as they are.
pub proof fn lemma_with_flag(flags: i32, bits: i32, on: bool)
    ensures
        on ==> with_flag(flags, bits, on) & bits == bits,
        !on ==> with_flag(flags, bits, on) & bits == 0,
        with_flag(flags, bits, on) & !bits == flags & !bits,
{
    assert((flags | bits) & bits == bits) by (bit_vector);
    assert((flags & !bits) & bits == 0) by (bit_vector);
    assert((flags | bits) & !bits == flags & !bits) by (bit_vector);
    assert((flags & !bits) & !bits == flags & !bits) by (bit_vector);
}

/// Switching a flag a second time in the same way changes nothing.
pub proof fn lemma_with_flag_twice(flags: i32, bits: i32, on: bool)
    ensures
        with_flag(with_flag(flags, bits, on), bits, on) == with_flag(flags, bits, on),
{
    assert((flags | bits) | bits == flags | bits) by (bit_vector);
    assert((flags & !bits) & !bits == flags & !bits) by (bit_vector);
}

/// The flags with which a file is opened or created are flags that the
/// backend knows.
pub proof fn lemma_known_flags()
    ensures
        FileOpenFlags::READ & !FileOpenFlags::ALL == 0,
        (FileOpenFlags::WRITE | FileOpenFlags::CREATE | FileOpenFlags::TRUNCATE)
            & !FileOpenFlags::ALL == 0,
        FileOpenFlags::READWRITE == FileOpenFlags::READ | FileOpenFlags::WRITE,
        FileOpenFlags::ALL == FileOpenFlags::READWRITE | FileOpenFlags::CREATE
            | FileOpenFlags::EXCL | FileOpenFlags::TRUNCATE | FileOpenFlags::APPEND,
{
    assert(0x1i32 & !0x0f03i32 == 0) by (bit_vector);
    assert((0x2i32 | 0x100i32 | 0x400i32) & !0x0f03i32 == 0) by (bit_vector);
    assert(0x3i32 == 0x1i32 | 0x2i32) by (bit_vector);
    assert(0x0f03i32 == 0x3i32 | 0x100i32 | 0x200i32 | 0x400i32 | 0x800i32) by (bit_vector);
}

} // verus!
