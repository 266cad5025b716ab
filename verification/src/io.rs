//! Traits and types for core I/O functionality.

use vstd::prelude::*;

verus! {

/// The error type for filesystem operations.
///
/// An error is a negative code. The documented errors are available as
/// associated functions of this type.
#[derive(Clone, Copy, Debug, PartialEq, Eq, Structural)]
pub struct Error {
    code: i32,
}

pub type Result<T> = core::result::Result<T, Error>;

impl Error {
    /// Input / output error occurred.
    #[verifier::allow_in_spec]
    pub fn io() -> Error
        returns
            Error::with_code(-5),
    {
        Error { code: -5 }
    }

    /// File or filesystem was corrupt.
    #[verifier::allow_in_spec]
    pub fn corruption() -> Error
        returns
            Error::with_code(-84),
    {
        Error { code: -84 }
    }

    /// No entry found with that name.
    #[verifier::allow_in_spec]
    pub fn no_such_entry() -> Error
        returns
            Error::with_code(-2),
    {
        Error { code: -2 }
    }

    /// File or directory already exists.
    #[verifier::allow_in_spec]
    pub fn entry_already_existed() -> Error
        returns
            Error::with_code(-17),
    {
        Error { code: -17 }
    }

    /// Path name is not a directory.
    #[verifier::allow_in_spec]
    pub fn path_not_dir() -> Error
        returns
            Error::with_code(-20),
    {
        Error { code: -20 }
    }

    /// Path specification is to a directory.
    #[verifier::allow_in_spec]
    pub fn path_is_dir() -> Error
        returns
            Error::with_code(-21),
    {
        Error { code: -21 }
    }

    /// Directory was not empty.
    #[verifier::allow_in_spec]
    pub fn dir_not_empty() -> Error
        returns
            Error::with_code(-39),
    {
        Error { code: -39 }
    }

    /// Bad file descriptor.
    #[verifier::allow_in_spec]
    pub fn bad_file_descriptor() -> Error
        returns
            Error::with_code(-9),
    {
        Error { code: -9 }
    }

    /// File is too big.
    #[verifier::allow_in_spec]
    pub fn file_too_big() -> Error
        returns
            Error::with_code(-27),
    {
        Error { code: -27 }
    }

    /// Incorrect value specified to function.
    #[verifier::allow_in_spec]
    pub fn invalid() -> Error
        returns
            Error::with_code(-22),
    {
        Error { code: -22 }
    }

    /// No space left available for operation.
    #[verifier::allow_in_spec]
    pub fn no_space() -> Error
        returns
            Error::with_code(-28),
    {
        Error { code: -28 }
    }

    /// No memory available for completing request.
    #[verifier::allow_in_spec]
    pub fn no_memory() -> Error
        returns
            Error::with_code(-12),
    {
        Error { code: -12 }
    }

    /// No attribute or data available
    #[verifier::allow_in_spec]
    pub fn no_attribute() -> Error
        returns
            Error::with_code(-61),
    {
        Error { code: -61 }
    }

    /// Filename too long
    #[verifier::allow_in_spec]
    pub fn filename_too_long() -> Error
        returns
            Error::with_code(-36),
    {
        Error { code: -36 }
    }

    /// The error with the given code, which is to be negative.
    pub closed spec fn with_code(code: int) -> Error {
        Error { code: code as i32 }
    }

    /// The code behind the error.
    pub closed spec fn spec_code(self) -> int {
        self.code as int
    }

    #[verifier::type_invariant]
    pub closed spec fn well_formed(self) -> bool {
        self.code < 0
    }

    /// Construct an `Error` from an error code.
    ///
    /// Return values that are greater or equals to zero represent success.  In this case, `None`
    /// is returned.
    pub fn new(code: i32) -> (r: Option<Error>)
        ensures
            code >= 0 <==> r.is_none(),
            r matches Some(e) ==> e.spec_code() == code,
    {
        if code >= 0 {
            None
        } else {
            Some(Error { code })
        }
    }

    /// Return the error code of this error.
    pub fn code(&self) -> (c: i32)
        ensures
            c == self.spec_code(),
            c < 0,
    {
        proof {
            use_type_invariant(self);
        }
        self.code
    }
}

impl From<Error> for i32 {
    fn from(error: Error) -> (c: i32)
        ensures
            c == error.spec_code(),
            c < 0,
    {
        error.code()
    }
}

impl vstd::std_specs::convert::FromSpecImpl<Error> for i32 {
    open spec fn obeys_from_spec() -> bool {
        false
    }

    open spec fn from_spec(v: Error) -> i32 {
        arbitrary()
    }
}

/// Two errors with the same code are the same error.
pub proof fn lemma_error_is_its_code(a: Error, b: Error)
    requires
        a.spec_code() == b.spec_code(),
    ensures
        a == b,
{
}

/// An error made of a code has that code.
pub proof fn lemma_with_code(code: int)
    requires
        i32::MIN <= code <= i32::MAX,
    ensures
        Error::with_code(code).spec_code() == code,
{
}

/// The codes of the documented errors.
pub proof fn lemma_error_codes()
    ensures
        Error::io().spec_code() == -5,
        Error::corruption().spec_code() == -84,
        Error::no_such_entry().spec_code() == -2,
        Error::entry_already_existed().spec_code() == -17,
        Error::path_not_dir().spec_code() == -20,
        Error::path_is_dir().spec_code() == -21,
        Error::dir_not_empty().spec_code() == -39,
        Error::bad_file_descriptor().spec_code() == -9,
        Error::file_too_big().spec_code() == -27,
        Error::invalid().spec_code() == -22,
        Error::no_space().spec_code() == -28,
        Error::no_memory().spec_code() == -12,
        Error::no_attribute().spec_code() == -61,
        Error::filename_too_long().spec_code() == -36,
{
}

/// Enumeration of possible methods to seek within an I/O object.
///
/// Use the [`Seek`] trait.
#[derive(Clone, Copy, Debug, PartialEq, Eq, Structural)]
pub enum SeekFrom {
    Start(u32),
    End(i32),
    Current(i32),
}

impl SeekFrom {
    /// The offset handed to the backend: a signed 32-bit number. An offset
    /// from the start that does not fit wraps around.
    pub open spec fn spec_off(self) -> int {
        match self {
            SeekFrom::Start(u) => if u <= i32::MAX {
                u as int
            } else {
                u - 0x1_0000_0000
            },
            SeekFrom::End(i) => i as int,
            SeekFrom::Current(i) => i as int,
        }
    }

    /// The number by which the backend knows the position that the offset counts from.
    pub open spec fn spec_whence(self) -> int {
        match self {
            SeekFrom::Start(_) => 0,
            SeekFrom::End(_) => 2,
            SeekFrom::Current(_) => 1,
        }
    }

    pub fn off(self) -> (r: i32)
        ensures
            r == self.spec_off(),
    {
        match self {
            SeekFrom::Start(u) => {
                if u <= 0x7fff_ffff {
                    u as i32
                } else {
                    // the two's complement reading of the same 32 bits
                    ((u - 0x8000_0000) as i32) - 0x7fff_ffff - 1
                }
            },
            SeekFrom::End(i) => i,
            SeekFrom::Current(i) => i,
        }
    }

    pub fn whence(self) -> (r: i32)
        ensures
            r == self.spec_whence(),
    {
        match self {
            SeekFrom::Start(_) => 0,
            SeekFrom::End(_) => 2,
            SeekFrom::Current(_) => 1,
        }
    }
}

/// Enumeration of possible methods to seek within an file that was just opened
/// Used in the `read_chunk` and `write_chunk` methods,
/// Where [`SeekFrom::Current`] would not make sense.
#[derive(Clone, Copy, Debug, PartialEq, Eq, Structural)]
pub enum OpenSeekFrom {
    Start(u32),
    End(i32),
}

impl From<OpenSeekFrom> for SeekFrom {
    fn from(value: OpenSeekFrom) -> (r: SeekFrom) {
        match value {
            OpenSeekFrom::Start(o) => SeekFrom::Start(o),
            OpenSeekFrom::End(o) => SeekFrom::End(o),
        }
    }
}

impl vstd::std_specs::convert::FromSpecImpl<OpenSeekFrom> for SeekFrom {
    open spec fn obeys_from_spec() -> bool {
        true
    }

    open spec fn from_spec(v: OpenSeekFrom) -> SeekFrom {
        match v {
            OpenSeekFrom::Start(o) => SeekFrom::Start(o),
            OpenSeekFrom::End(o) => SeekFrom::End(o),
        }
    }
}

/// What `read_exact` makes of the result of its one `read` into a buffer of
/// `wanted` bytes: success where the buffer was filled, an I/O error where
/// fewer bytes came, and the error of the `read` where it failed.
pub open spec fn read_exact_result(read: Result<usize>, wanted: int) -> Result<()> {
    match read {
        Ok(len) => if len == wanted {
            Ok(())
        } else {
            Err(Error::io())
        },
        Err(e) => Err(e),
    }
}

/// What `read_exact` makes of the result of its one `read` into a buffer of
/// `wanted` bytes: see [`read_exact_result`].
pub fn read_exact_outcome(read: Result<usize>, wanted: usize) -> (r: Result<()>)
    ensures
        r == read_exact_result(read, wanted as int),
{
    match read {
        Ok(len) => {
            if len == wanted {
                Ok(())
            } else {
                // an unexpected end of the file is reported as an I/O error
                Err(Error::io())
            }
        },
        Err(e) => Err(e),
    }
}

/// What `write_all` makes of the result of one `write` while `remaining`
/// bytes are still to be written: the number of bytes that are then left, an
/// I/O error where nothing was written, and the error of the `write` where it
/// failed.
pub fn write_all_step(written: Result<usize>, remaining: usize) -> (r: Result<usize>)
    requires
        written matches Ok(n) ==> n <= remaining,
    ensures
        match written {
            Ok(n) => if n == 0 {
                r == Err::<usize, Error>(Error::io())
            } else {
                r == Ok::<usize, Error>((remaining - n) as usize)
            },
            Err(e) => r == Err::<usize, Error>(e),
        },
{
    match written {
        Ok(n) => {
            if n == 0 {
                // failed to write whole buffer
                Err(Error::io())
            } else {
                Ok(remaining - n)
            }
        },
        Err(e) => Err(e),
    }
}

/// The `Read` trait allows for reading bytes from a file.
pub trait Read {
    /// Read at most buf.len() bytes.
    /// Upon success, return how many bytes were read.
    fn read(&self, buf: &mut [u8]) -> (r: Result<usize>)
        ensures
            final(buf)@.len() == old(buf)@.len(),
            r matches Ok(n) ==> n <= old(buf)@.len(),
    ;

    /// Fill the buffer with one `read`: the buffer is handed to `read`, and
    /// [`read_exact_result`] tells what is made of the result.
    fn read_exact(&self, buf: &mut [u8]) -> (r: Result<()>)
        ensures
            final(buf)@.len() == old(buf)@.len(),
        default_ensures
            exists|b: &mut [u8], read: Result<usize>|
                #![trigger call_ensures(Self::read, (self, b), read)]
                b@ == old(buf)@ && final(b)@ == final(buf)@ && call_ensures(
                    Self::read,
                    (self, b),
                    read,
                ) && r == read_exact_result(read, old(buf)@.len() as int),
    {
        // one `read` is taken to fill the buffer if the file has enough left
        let wanted = buf.len();
        let read = self.read(buf);
        read_exact_outcome(read, wanted)
    }
}

/// The `Write` trait allows for writing bytes to a file.
///
/// By analogy with `std::io::Write`, we also define a `flush()`
/// method. In the current implementation, writes are final and
/// flush has no effect.
pub trait Write {
    /// Write at most data.len() bytes.
    /// The file will not necessarily be updated unless
    /// flush is called as there is a cache.
    /// Upon success, return how many bytes were written.
    fn write(&self, data: &[u8]) -> (r: Result<usize>)
        ensures
            r matches Ok(n) ==> n <= data@.len(),
    ;

    /// Write out all pending writes to storage.
    fn flush(&self) -> Result<()>;

    /// Write the whole buffer, by as many calls of `write` as it takes.
    ///
    /// Nothing is written for an empty buffer. Else `write` is called on
    /// the whole buffer, and then on what is left of it after each call that
    /// wrote some of it, until nothing is left: see [`writes_all`]. A call
    /// that writes nothing ends the writing with an I/O error, and a call that
    /// fails ends it with its error: see [`write_all_result`].
    fn write_all(&self, buf: &[u8]) -> (r: Result<()>)
        ensures
            buf@.len() == 0 ==> r == Ok::<(), Error>(()),
        default_ensures
            exists|calls: Seq<(&[u8], Result<usize>)>|
                #![trigger writes_all(buf@, calls)]
                writes_all(buf@, calls) && (forall|k: int|
                    0 <= k < calls.len() ==> call_ensures(
                        Self::write,
                        (self, (#[trigger] calls[k]).0),
                        calls[k].1,
                    )) && r == write_all_result(calls) && (r.is_ok() ==> left_to_write(
                    buf@,
                    calls,
                ).len() == 0),
    {
        let mut rest = buf;
        let ghost mut calls: Seq<(&[u8], Result<usize>)> = Seq::empty();
        while rest.len() > 0
            invariant
                rest@.len() <= buf@.len(),
                buf@.len() == 0 ==> rest@.len() == 0,
                writes_all(buf@, calls),
                forall|k: int|
                    0 <= k < calls.len() ==> call_ensures(
                        Self::write,
                        (self, (#[trigger] calls[k]).0),
                        calls[k].1,
                    ),
                rest@ == left_to_write(buf@, calls),
                calls.len() > 0 ==> (calls.last().1 matches Ok(n) && n > 0),
            decreases rest@.len(),
        {
            let n = rest.len();
            let written = self.write(rest);
            proof {
                let next = calls.push((rest, written));
                assert(next.drop_last() =~= calls);
                assert(next.last() == (rest, written));
                assert(writes_all(buf@, next));
                assert forall|k: int| 0 <= k < next.len() implies call_ensures(
                    Self::write,
                    (self, (#[trigger] next[k]).0),
                    next[k].1,
                ) by {
                    if k < calls.len() {
                        assert(next[k] == calls[k]);
                    }
                }
                calls = next;
            }
            match write_all_step(written, n) {
                Ok(left) => {
                    rest = vstd::slice::slice_subrange(rest, n - left, n);
                },
                Err(e) => {
                    return Err(e);
                },
            }
        }
        Ok(())
    }
}

/// What is left of `buf` to write after the calls `calls` of `write`, each
/// given by the bytes that it was handed and by what it returned: a call
/// that succeeded took the bytes that it wrote from the front.
pub open spec fn left_to_write(buf: Seq<u8>, calls: Seq<(&[u8], Result<usize>)>) -> Seq<u8>
    decreases calls.len(),
{
    if calls.len() == 0 {
        buf
    } else {
        let before = left_to_write(buf, calls.drop_last());
        match calls.last().1 {
            Ok(n) => before.skip(n as int),
            Err(_) => before,
        }
    }
}

/// Whether `calls` are handed what `write_all` hands to `write` for `buf`:
/// each call is handed what is left to write, which is not empty, and a
/// call is made only after every call before it wrote some bytes.
pub open spec fn writes_all(buf: Seq<u8>, calls: Seq<(&[u8], Result<usize>)>) -> bool
    decreases calls.len(),
{
    calls.len() == 0 || {
        let earlier = calls.drop_last();
        &&& writes_all(buf, earlier)
        &&& (earlier.len() > 0 ==> (earlier.last().1 matches Ok(n) && n > 0))
        &&& left_to_write(buf, earlier).len() > 0
        &&& calls.last().0@ == left_to_write(buf, earlier)
        &&& (calls.last().1 matches Ok(n) ==> n <= calls.last().0@.len())
    }
}

/// What is left to write is the end of the buffer: `write_all` hands the
/// buffer to `write` from its start on, and no byte twice.
pub proof fn lemma_left_to_write_is_end(buf: Seq<u8>, calls: Seq<(&[u8], Result<usize>)>)
    requires
        writes_all(buf, calls),
    ensures
        left_to_write(buf, calls).len() <= buf.len(),
        left_to_write(buf, calls) == buf.skip(buf.len() - left_to_write(buf, calls).len()),
    decreases calls.len(),
{
    if calls.len() == 0 {
        assert(buf.skip(0) =~= buf);
    } else {
        let earlier = calls.drop_last();
        lemma_left_to_write_is_end(buf, earlier);
        let before = left_to_write(buf, earlier);
        match calls.last().1 {
            Ok(n) => {
                assert(buf.skip(buf.len() - before.len()).skip(n as int) =~= buf.skip(
                    buf.len() - before.len() + n,
                ));
            },
            Err(_) => {},
        }
    }
}

/// The result of `write_all` after the calls `calls` of `write`: success
/// where none was made or the last one wrote some bytes, an I/O error where
/// the last one wrote nothing, and its error where it failed.
pub open spec fn write_all_result(calls: Seq<(&[u8], Result<usize>)>) -> Result<()> {
    if calls.len() == 0 {
        Ok(())
    } else {
        match calls.last().1 {
            Ok(n) => if n == 0 {
                Err(Error::io())
            } else {
                Ok(())
            },
            Err(e) => Err(e),
        }
    }
}

/// The `Seek` trait provides a cursor which can be moved within a file.
///
/// It is possible to seek relative to either end or the current offset.
pub trait Seek {
    /// Seek to an offset in bytes.
    /// If successful, returns the new position from start of file.
    fn seek(&self, pos: SeekFrom) -> Result<usize>;
}


/// A reference to a file reads as the file does.
impl<T: Read + ?Sized> Read for &T {
    fn read(&self, buf: &mut [u8]) -> (r: Result<usize>)
        ensures
            exists|b: &mut [u8]|
                #![trigger call_ensures(T::read, (*self, b), r)]
                b@ == old(buf)@ && final(b)@ == final(buf)@ && call_ensures(
                    T::read,
                    (*self, b),
                    r,
                ),
    {
        (**self).read(buf)
    }
}

/// A reference to a file writes as the file does.
impl<T: Write + ?Sized> Write for &T {
    fn write(&self, data: &[u8]) -> (r: Result<usize>)
        ensures
            call_ensures(T::write, (*self, data), r),
    {
        (**self).write(data)
    }

    fn flush(&self) -> (r: Result<()>)
        ensures
            call_ensures(T::flush, (*self,), r),
    {
        (**self).flush()
    }
}

/// A reference to a file seeks as the file does.
impl<T: Seek + ?Sized> Seek for &T {
    fn seek(&self, pos: SeekFrom) -> (r: Result<usize>)
        ensures
            call_ensures(T::seek, (*self, pos), r),
    {
        (**self).seek(pos)
    }
}

} // verus!
