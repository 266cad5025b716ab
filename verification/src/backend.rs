//! What the values that the backend hands back mean.
//!
//! The backend reports in numbers: a negative number is an error code, and a
//! number that is not negative is a size, a count, or plain success. It
//! describes an entry by a record of plain values. The functions here turn
//! these into the types of this crate, and the values of this crate into what
//! the backend takes.

use crate::bytes::{first_index_of, lemma_first_index_of_bounds, position};
use crate::fs::{Attribute, DirEntry, FileType, Metadata};
use crate::io::{Error, Result};
use crate::path::{is_ascii, is_ascii_text, joined, Path, PathBuf};
use vstd::prelude::*;
use vstd::slice::slice_subrange;

verus! {

/// The type by which the backend knows a regular file.
pub const TYPE_REG: u8 = 0x001;

/// The type by which the backend knows a directory.
pub const TYPE_DIR: u8 = 0x002;

/// The release of the backend that this crate is written for: the major
/// number in the upper half, the minor number in the lower half.
pub const BACKEND_VERSION: u32 = 0x0002_0009;

/// The version of the on-disk format that this crate asks the backend for,
/// laid out like [`BACKEND_VERSION`].
pub const DISK_VERSION: u32 = 0x0002_0000;

/// The major number of a version.
pub fn major(version: u32) -> (r: u16)
    ensures
        r == version / 0x1_0000,
{
    (version / 0x1_0000) as u16
}

/// The minor number of a version.
pub fn minor(version: u32) -> (r: u16)
    ensures
        r == version % 0x1_0000,
{
    (version % 0x1_0000) as u16
}

/// Information about the C backend
#[derive(Clone, Copy, Debug)]
pub struct Version {
    /// On-disk format (currently: 2.0)
    pub format: (u32, u32),
    /// Backend release (currently: 2.9)
    pub backend: (u32, u32),
}

/// get information about the C backend
pub fn version() -> (r: Version)
    ensures
        r.format == (2u32, 0u32),
        r.backend == (2u32, 9u32),
{
    Version {
        format: (major(DISK_VERSION) as u32, minor(DISK_VERSION) as u32),
        backend: (major(BACKEND_VERSION) as u32, minor(BACKEND_VERSION) as u32),
    }
}

/// The code that is handed to the backend for a result: zero for success,
/// and the code of the error otherwise.
pub fn error_code_from<T>(result: Result<T>) -> (code: i32)
    ensures
        match result {
            Ok(_) => code == 0,
            Err(e) => code == e.spec_code() && code < 0,
        },
{
    match result {
        Ok(_) => 0,
        Err(e) => e.code(),
    }
}

/// The result that a code of the backend stands for: the error with that
/// code where it is negative, and `return_value` otherwise.
pub fn result_from<T>(return_value: T, error_code: i32) -> (r: Result<T>)
    ensures
        error_code >= 0 ==> r == Ok::<T, Error>(return_value),
        error_code < 0 ==> r == Err::<T, Error>(Error::with_code(error_code as int)),
{
    match Error::new(error_code) {
        Some(error) => {
            proof {
                crate::io::lemma_with_code(error_code as int);
                crate::io::lemma_error_is_its_code(error, Error::with_code(error_code as int));
            }
            Err(error)
        },
        None => Ok(return_value),
    }
}

/// The number that a return value of the backend stands for, or the error
/// with that code where it is negative.
pub fn u32_result(return_value: i32) -> (r: Result<u32>)
    ensures
        return_value >= 0 ==> r == Ok::<u32, Error>(return_value as u32),
        return_value < 0 ==> r == Err::<u32, Error>(Error::with_code(return_value as int)),
{
    if return_value >= 0 {
        Ok(return_value as u32)
    } else {
        result_from(0, return_value)
    }
}

/// The number of bytes that the backend read or wrote, from what it
/// returned for a buffer of `len` bytes: a negative number is an error, and
/// a count that is larger than the buffer cannot be true and is an I/O error.
pub fn count_within(return_value: i32, len: usize) -> (r: Result<usize>)
    ensures
        return_value < 0 ==> r == Err::<usize, Error>(Error::with_code(return_value as int)),
        0 <= return_value <= len ==> r == Ok::<usize, Error>(return_value as usize),
        return_value > len ==> r == Err::<usize, Error>(Error::io()),
        r matches Ok(n) ==> n <= len,
{
    match u32_result(return_value) {
        Ok(n) => {
            if n as usize <= len {
                Ok(n as usize)
            } else {
                Err(Error::io())
            }
        },
        Err(e) => Err(e),
    }
}

/// The length of a buffer as the backend takes it: a 32-bit number, the
/// largest one for a buffer that is longer.
pub fn len_for_backend(len: usize) -> (r: u32)
    ensures
        r == if len <= u32::MAX {
            len as int
        } else {
            u32::MAX as int
        },
{
    if len <= 0xffff_ffff {
        len as u32
    } else {
        0xffff_ffff
    }
}

/// The record by which the backend describes an entry.
#[derive(Clone, Copy, Debug)]
pub struct Info {
    /// Type of the file, either [`TYPE_REG`] or [`TYPE_DIR`]
    pub type_: u8,
    /// Size of the file, only valid for regular files
    pub size: u32,
    /// Name of the file stored as a null-terminated string
    pub name: [u8; 256],
}

/// The file type that a type of the backend stands for.
pub open spec fn file_type_of(type_: u8) -> Option<FileType> {
    if type_ == TYPE_DIR {
        Some(FileType::Dir)
    } else if type_ == TYPE_REG {
        Some(FileType::File)
    } else {
        None
    }
}

/// The name that a record holds: the bytes before the first null byte.
pub open spec fn name_of(info: Info) -> Seq<u8> {
    info.name@.subrange(0, first_index_of(info.name@, 0))
}

/// Whether a record describes an entry that can be named under the
/// directory `dir`: its type is known, its name ends in a null byte, is ASCII
/// and fits behind `dir` in a path.
pub open spec fn describes_entry_under(info: Info, dir: Seq<u8>) -> bool {
    &&& file_type_of(info.type_).is_some()
    &&& first_index_of(info.name@, 0) < 256
    &&& is_ascii_text(name_of(info))
    &&& joined(dir, name_of(info)).len() <= 255
}

impl Info {
    /// Tells whether the record describes an entry that can be named under `dir`.
    pub fn describes_entry_under(&self, dir: &Path<'_>) -> (r: bool)
        ensures
            r == describes_entry_under(*self, dir@),
    {
        if self.type_ != TYPE_DIR && self.type_ != TYPE_REG {
            return false;
        }
        proof {
            lemma_first_index_of_bounds(self.name@, 0);
        }
        let name = self.name.as_slice();
        match position(name, 0) {
            None => false,
            Some(n) => {
                let text = slice_subrange(name, 0, n);
                if !is_ascii(text) {
                    return false;
                }
                let d = dir.len();
                if n == 0 || (n == 1 && text[0] == crate::path::SEPARATOR) {
                    return true;
                }
                let sep: usize = if d > 0 && dir.as_bytes()[d - 1] != crate::path::SEPARATOR {
                    1
                } else {
                    0
                };
                d + sep + n <= 255
            },
        }
    }
}

/// The type and size that a record of the backend describes. The type must
/// be one of the two that the backend reports.
pub fn metadata(info: &Info) -> (r: Metadata)
    requires
        file_type_of(info.type_).is_some(),
    ensures
        Some(r.spec_file_type()) == file_type_of(info.type_),
        r.spec_len() == info.size,
{
    let file_type = if info.type_ == TYPE_DIR {
        FileType::Dir
    } else {
        FileType::File
    };
    Metadata::new(file_type, info.size as usize)
}

/// What reading a directory gives next, from what the backend returned and
/// the record that it filled.
///
/// A positive number announces an entry: its full path is the path of the
/// directory extended by its name. Zero ends the directory, and a negative
/// number is an error.
pub fn dir_entry_from(dir: &Path<'_>, return_code: i32, info: &Info) -> (r: Option<
    Result<DirEntry>,
>)
    requires
        return_code > 0 ==> describes_entry_under(*info, dir@),
    ensures
        return_code == 0 ==> r.is_none(),
        return_code < 0 ==> r == Some(
            Err::<DirEntry, Error>(Error::with_code(return_code as int)),
        ),
        return_code > 0 ==> (r matches Some(Ok(entry)) && entry.spec_file_name() == name_of(*info)
            && entry.spec_path() == joined(dir@, name_of(*info)) && Some(
            entry.spec_metadata().spec_file_type(),
        ) == file_type_of(info.type_) && entry.spec_metadata().spec_len() == info.size),
{
    if return_code > 0 {
        let file_name = PathBuf::from_buffer_unchecked(info.name);
        let metadata = metadata(info);
        let path = dir.join(&file_name.as_path());
        let dir_entry = DirEntry::new(file_name, metadata, path);
        return Some(Ok(dir_entry));
    }
    if return_code == 0 {
        return None;
    }
    match result_from((), return_code) {
        Ok(()) => None,
        Err(e) => Some(Err(e)),
    }
}

/// The attribute that was read, from what the backend returned and the
/// bytes of the buffer that it filled: the data that was read and the size of
/// the attribute on the filesystem, or nothing where there is no attribute.
///
/// A number that is not negative is the size of the attribute on the
/// filesystem; the buffer holds its start. The error that tells that there is
/// no attribute gives nothing, and any other error is handed on.
pub open spec fn attribute_of(return_code: int, buffer: Seq<u8>) -> core::result::Result<
    Option<(Seq<u8>, int)>,
    Error,
> {
    if return_code >= 0 {
        Ok(
            Some(
                (
                    if buffer.len() <= return_code {
                        buffer
                    } else {
                        buffer.take(return_code)
                    },
                    return_code,
                ),
            ),
        )
    } else if return_code == -61 {
        Ok(None)
    } else {
        Err(Error::with_code(return_code))
    }
}

/// An attribute is read back as it was set: where the backend returns the
/// size of the data `d` and has put `d` at the start of a buffer that has
/// room for it, the attribute that is read has the data `d` and the total
/// size of `d`.
pub proof fn lemma_attribute_is_read_back(d: Seq<u8>, buffer: Seq<u8>)
    requires
        d.len() <= buffer.len(),
        buffer.take(d.len() as int) == d,
    ensures
        attribute_of(d.len() as int, buffer) == Ok::<Option<(Seq<u8>, int)>, Error>(
            Some((d, d.len() as int)),
        ),
{
    if buffer.len() == d.len() {
        assert(buffer.take(d.len() as int) =~= buffer);
    }
}

/// An attribute that is larger than the buffer is read in part: where the
/// backend returns the size of the data `d` and has filled a smaller buffer
/// with the start of `d`, the attribute that is read has that start as its
/// data and the total size of `d`.
pub proof fn lemma_attribute_is_read_in_part(d: Seq<u8>, buffer: Seq<u8>)
    requires
        buffer.len() <= d.len(),
        buffer == d.take(buffer.len() as int),
    ensures
        attribute_of(d.len() as int, buffer) == Ok::<Option<(Seq<u8>, int)>, Error>(
            Some((d.take(buffer.len() as int), d.len() as int)),
        ),
{
    if buffer.len() == d.len() {
        assert(buffer.take(d.len() as int) =~= buffer);
    }
}

/// An attribute that was removed is read as none, and not as an error:
/// where the backend tells that there is no attribute, nothing is read,
/// whatever the buffer holds.
pub proof fn lemma_missing_attribute_is_none(buffer: Seq<u8>)
    ensures
        attribute_of(-61, buffer) == Ok::<Option<(Seq<u8>, int)>, Error>(None),
{
}

/// The attribute that was read, from what the backend returned and the
/// buffer that it filled: see [`attribute_of`].
pub fn attribute_from<'a>(return_code: i32, buffer: &'a [u8]) -> (r: Result<Option<Attribute<'a>>>)
    ensures
        match attribute_of(return_code as int, buffer@) {
            Ok(Some((data, total_size))) => r matches Ok(Some(a)) && a.spec_data() == data
                && a.spec_total_size() == total_size,
            Ok(None) => r matches Ok(None),
            Err(e) => r == Err::<Option<Attribute<'a>>, Error>(e),
        },
        return_code >= 0 ==> (r matches Ok(Some(a)) && a.spec_total_size() == return_code
            && a.spec_data() == buffer@.take(
            if buffer@.len() <= return_code {
                buffer@.len() as int
            } else {
                return_code as int
            },
        )),
        return_code == -61 ==> r matches Ok(None),
        return_code < 0 && return_code != -61 ==> r == Err::<Option<Attribute<'a>>, Error>(
            Error::with_code(return_code as int),
        ),
{
    match u32_result(return_code) {
        Ok(n) => {
            let total_size = n as usize;
            Ok(Some(Attribute::new(buffer, total_size)))
        },
        Err(err) => {
            if err == Error::no_attribute() {
                proof {
                    crate::io::lemma_with_code(-61);
                    crate::io::lemma_with_code(return_code as int);
                }
                Ok(None)
            } else {
                proof {
                    crate::io::lemma_with_code(-61);
                    crate::io::lemma_with_code(return_code as int);
                }
                Err(err)
            }
        },
    }
}

/// The number of unused blocks, from the number of blocks in use that the
/// backend returned: what is left of `total_blocks`, and nothing where more
/// blocks are in use than there are.
pub fn available_blocks_from(return_code: i32, total_blocks: usize) -> (r: Result<usize>)
    ensures
        return_code < 0 ==> r == Err::<usize, Error>(Error::with_code(return_code as int)),
        return_code >= 0 ==> r == Ok::<usize, Error>(
            if return_code <= total_blocks {
                (total_blocks - return_code) as usize
            } else {
                0
            },
        ),
{
    match u32_result(return_code) {
        Ok(blocks) => {
            let blocks = blocks as usize;
            if blocks <= total_blocks {
                Ok(total_blocks - blocks)
            } else {
                Ok(0)
            }
        },
        Err(e) => Err(e),
    }
}

/// The number of bytes in a number of blocks, where it can be told.
pub fn space_of(blocks: usize, block_size: usize) -> (r: Option<usize>)
    ensures
        r.is_some() <==> blocks * block_size <= usize::MAX,
        r matches Some(n) ==> n == blocks * block_size,
{
    blocks.checked_mul(block_size)
}

/// Where in the storage a place in a block lies: the bytes from the start
/// of the storage, where that number fits in 32 bits as the backend's own do.
pub fn byte_offset(block: u32, block_size: u32, off: u32) -> (r: Option<usize>)
    ensures
        r.is_some() <==> block * block_size + off <= u32::MAX,
        r matches Some(n) ==> n == block * block_size + off,
{
    match block.checked_mul(block_size) {
        Some(start) => match start.checked_add(off) {
            Some(n) => Some(n as usize),
            None => None,
        },
        None => None,
    }
}

} // verus!
