//! Readers and writers in the shape of the `embedded-io` traits.

use crate::io::{Error, Read, Result, Write};
use vstd::prelude::*;

verus! {

/// The kinds by which `embedded-io` tells errors apart, as far as the
/// errors of the filesystem fall under them.
#[derive(Clone, Copy, Debug, PartialEq, Eq, Structural)]
pub enum ErrorKind {
    /// Unspecified error kind.
    Other,
    /// An entity was not found, often a file.
    NotFound,
    /// An entity already exists, often a file.
    AlreadyExists,
    /// A parameter was incorrect.
    InvalidInput,
    /// An operation could not be completed, because it failed to allocate enough memory.
    OutOfMemory,
}

/// The kind of the error with the code `code`.
pub open spec fn kind_of_code(code: int) -> ErrorKind {
    if code == -17 {
        ErrorKind::AlreadyExists
    } else if code == -2 {
        ErrorKind::NotFound
    } else if code == -9 || code == -22 || code == -36 {
        ErrorKind::InvalidInput
    } else if code == -12 {
        ErrorKind::OutOfMemory
    } else {
        ErrorKind::Other
    }
}

impl Error {
    /// The kind of the error: an entry that exists already or is not found,
    /// a bad file descriptor, an invalid value or a name that is too long as
    /// invalid input, and want of memory, are told apart from all others.
    pub fn kind(&self) -> (r: ErrorKind)
        ensures
            r == kind_of_code(self.spec_code()),
    {
        let code = self.code();
        if code == -17 {
            ErrorKind::AlreadyExists
        } else if code == -2 {
            ErrorKind::NotFound
        } else if code == -9 || code == -22 || code == -36 {
            ErrorKind::InvalidInput
        } else if code == -12 {
            ErrorKind::OutOfMemory
        } else {
            ErrorKind::Other
        }
    }
}

/// Reads from a file by the methods that `embedded-io` expects of a reader.
pub struct Reader<'a, T: Read>(pub &'a T);

impl<'a, T: Read> Reader<'a, T> {
    pub fn new(read: &'a T) -> (r: Reader<'a, T>)
        ensures
            r.0 == read,
    {
        Reader(read)
    }

    /// Read at most buf.len() bytes from the file: the buffer is handed to
    /// `read` of the file, and what that returns and leaves in the buffer is
    /// handed back.
    pub fn read(&mut self, buf: &mut [u8]) -> (r: Result<usize>)
        ensures
            final(buf)@.len() == old(buf)@.len(),
            r matches Ok(n) ==> n <= old(buf)@.len(),
            *final(self) == *old(self),
            exists|b: &mut [u8]|
                #![trigger call_ensures(T::read, (old(self).0, b), r)]
                b@ == old(buf)@ && final(b)@ == final(buf)@ && call_ensures(
                    T::read,
                    (old(self).0, b),
                    r,
                ),
    {
        self.0.read(buf)
    }

    /// Fill the buffer from the file: the buffer is handed to `read_exact`
    /// of the file, and what that returns and leaves in the buffer is handed
    /// back.
    pub fn read_exact(&mut self, buf: &mut [u8]) -> (r: Result<()>)
        ensures
            final(buf)@.len() == old(buf)@.len(),
            *final(self) == *old(self),
            exists|b: &mut [u8]|
                #![trigger call_ensures(T::read_exact, (old(self).0, b), r)]
                b@ == old(buf)@ && final(b)@ == final(buf)@ && call_ensures(
                    T::read_exact,
                    (old(self).0, b),
                    r,
                ),
    {
        self.0.read_exact(buf)
    }
}

/// Writes to a file by the methods that `embedded-io` expects of a writer.
pub struct Writer<'a, T: Write>(pub &'a T);

impl<'a, T: Write> Writer<'a, T> {
    pub fn new(write: &'a T) -> (r: Writer<'a, T>)
        ensures
            r.0 == write,
    {
        Writer(write)
    }

    /// Write at most buf.len() bytes to the file: what `write` of the file
    /// returns for the buffer is handed back.
    pub fn write(&mut self, buf: &[u8]) -> (r: Result<usize>)
        ensures
            r matches Ok(n) ==> n <= buf@.len(),
            *final(self) == *old(self),
            call_ensures(T::write, (old(self).0, buf), r),
    {
        self.0.write(buf)
    }

    /// Write out all pending writes to storage: what `flush` of the file
    /// returns is handed back.
    pub fn flush(&mut self) -> (r: Result<()>)
        ensures
            *final(self) == *old(self),
            call_ensures(T::flush, (old(self).0,), r),
    {
        self.0.flush()
    }

    /// Write the whole buffer to the file: what `write_all` of the file
    /// returns for the buffer is handed back.
    pub fn write_all(&mut self, buf: &[u8]) -> (r: Result<()>)
        ensures
            buf@.len() == 0 ==> r == Ok::<(), Error>(()),
            *final(self) == *old(self),
            call_ensures(T::write_all, (old(self).0, buf), r),
    {
        self.0.write_all(buf)
    }
}

} // verus!
