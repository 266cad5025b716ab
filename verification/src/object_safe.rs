//! Files as the filesystem hands them to a caller, and the byte vectors
//! that a file can be read into.

use crate::driver::resized;
use crate::io::{Error, OpenSeekFrom, Read, Result, Seek, SeekFrom, Write};
use vstd::prelude::*;
use vstd::std_specs::convert::FromSpec;

verus! {

/// A vector of bytes of some capacity.
pub trait Vec: Sized {
    /// The bytes that the vector holds.
    spec fn spec_bytes(&self) -> Seq<u8>;

    /// The number of bytes that the vector can hold.
    spec fn spec_capacity(&self) -> nat;

    /// A vector that holds no byte.
    fn empty() -> (v: Self)
        ensures
            v.spec_bytes().len() == 0,
    ;

    /// The number of bytes that the vector holds, which is not more than
    /// it can hold.
    fn len(&self) -> (n: usize)
        ensures
            n == self.spec_bytes().len(),
            n <= self.spec_capacity(),
    ;

    /// The bytes of the vector, to be written over.
    fn as_mut_slice(&mut self) -> (s: &mut [u8])
        ensures
            s@ == old(self).spec_bytes(),
            final(self).spec_bytes() == final(s)@,
            final(self).spec_capacity() == old(self).spec_capacity(),
    ;

    /// Fills the vector up to its capacity. The bytes that it held stay, and
    /// the bytes that are added are null bytes.
    fn resize_to_capacity(&mut self)
        ensures
            final(self).spec_bytes() == resized(
                old(self).spec_bytes(),
                old(self).spec_capacity() as int,
            ),
            final(self).spec_capacity() == old(self).spec_capacity(),
    ;

    /// Shortens the vector to `n` bytes. A vector that is not longer stays as it is.
    fn truncate(&mut self, n: usize)
        ensures
            final(self).spec_bytes() == if n <= old(self).spec_bytes().len() {
                old(self).spec_bytes().take(n as int)
            } else {
                old(self).spec_bytes()
            },
            final(self).spec_capacity() == old(self).spec_capacity(),
    ;
}

/// A vector of at most `N` bytes.
#[derive(Clone, Copy, Debug)]
pub struct Bytes<const N: usize> {
    buf: [u8; N],
    // the number of bytes of `buf` that are held; `N` where it is larger
    len: usize,
}

impl<const N: usize> View for Bytes<N> {
    type V = Seq<u8>;

    /// The bytes that the vector holds: at most `N`.
    closed spec fn view(&self) -> Seq<u8> {
        if self.len <= N {
            self.buf@.take(self.len as int)
        } else {
            self.buf@
        }
    }
}

impl<const N: usize> Bytes<N> {
    /// A vector that holds no byte.
    pub fn new() -> (r: Bytes<N>)
        ensures
            r@.len() == 0,
    {
        Bytes { buf: [0u8;N], len: 0 }
    }

    /// The vector that holds the bytes of `slice`, where they are not more than `N`.
    pub fn from_slice(slice: &[u8]) -> (r: Option<Bytes<N>>)
        ensures
            r.is_some() <==> slice@.len() <= N,
            r matches Some(v) ==> v@ == slice@,
    {
        let n = slice.len();
        if n > N {
            return None;
        }
        let mut buf = [0u8;N];
        let mut i: usize = 0;
        while i < n
            invariant
                n == slice@.len(),
                n <= N,
                i <= n,
                forall|j: int| 0 <= j < i ==> buf@[j] == slice@[j],
            decreases n - i,
        {
            buf[i] = slice[i];
            i = i + 1;
        }
        assert(buf@.take(n as int) =~= slice@);
        Some(Bytes { buf, len: n })
    }

    /// The bytes that the vector holds.
    pub fn as_slice(&self) -> (r: &[u8])
        ensures
            r@ == self@,
            r@.len() <= N,
    {
        let n = Vec::len(self);
        let r = vstd::slice::slice_subrange(self.buf.as_slice(), 0, n);
        assert(r@ =~= self@);
        r
    }

    /// The number of bytes that the vector can hold.
    pub fn capacity(&self) -> (r: usize)
        ensures
            r == N,
    {
        N
    }
}

impl<const N: usize> Vec for Bytes<N> {
    open spec fn spec_bytes(&self) -> Seq<u8> {
        self@
    }

    open spec fn spec_capacity(&self) -> nat {
        N as nat
    }

    fn empty() -> (v: Self) {
        Bytes::new()
    }

    fn len(&self) -> (n: usize) {
        if self.len <= N {
            self.len
        } else {
            N
        }
    }

    fn as_mut_slice(&mut self) -> (s: &mut [u8]) {
        let n = Vec::len(&*self);
        let all: &mut [u8] = &mut self.buf;
        let (head, tail) = all.split_at_mut(n);
        proof {
            assert(final(tail)@ == tail@);
            assert((final(head)@ + tail@).len() == N);
            assert((final(head)@ + tail@).take(n as int) =~= final(head)@);
            if n == N {
                assert(final(head)@ + tail@ =~= final(head)@);
            }
        }
        head
    }

    fn resize_to_capacity(&mut self) {
        let ghost before = self@;
        let mut i = Vec::len(&*self);
        while i < N
            invariant
                before.len() <= i <= N,
                forall|j: int| 0 <= j < before.len() ==> self.buf@[j] == before[j],
                forall|j: int| before.len() <= j < i ==> self.buf@[j] == 0,
            decreases N - i,
        {
            self.buf[i] = 0;
            i = i + 1;
        }
        self.len = N;
        assert(self@ =~= resized(before, N as int));
    }

    fn truncate(&mut self, n: usize) {
        let ghost before = self@;
        if n < Vec::len(&*self) {
            self.len = n;
        }
        assert(self@ =~= if n <= before.len() {
            before.take(n as int)
        } else {
            before
        });
    }
}

impl<const N: usize> PartialEq for Bytes<N> {
    fn eq(&self, other: &Bytes<N>) -> (r: bool) {
        crate::bytes::bytes_eq(self.as_slice(), other.as_slice())
    }
}

impl<const N: usize> vstd::std_specs::cmp::PartialEqSpecImpl for Bytes<N> {
    open spec fn obeys_eq_spec() -> bool {
        true
    }

    open spec fn eq_spec(&self, other: &Bytes<N>) -> bool {
        self@ == other@
    }
}

impl<const N: usize> Eq for Bytes<N> {

}

/// A file that is open.
///
/// Files are opened by the filesystem, which hands them to a callback and
/// closes them when the callback returns.
pub trait DynFile: Read + Seek + Write {
    /// Synchronize file contents to storage.
    fn sync(&self) -> Result<()>;

    /// Size of the file in bytes.
    fn len(&self) -> Result<usize>;

    fn is_empty(&self) -> Result<bool>;

    /// Truncates or extends the underlying file, updating the size of this file to become size.
    fn set_len(&self, size: usize) -> Result<()>;

    /// Reads from the file into what is free of `buf`, by one `read`.
    ///
    /// `buf` is filled up to its capacity, and what was added, which is null
    /// bytes, is handed to `read`, once. Where the `read` succeeds, its result is
    /// handed back, and `buf` holds what it held and behind that the bytes
    /// that were read, and no more. Where it fails, its error is handed back,
    /// and `buf` is left filled up to its capacity, with what it held at its
    /// start.
    fn read_to_end<V: Vec>(&self, buf: &mut V) -> (r: Result<usize>) where Self: Sized
        ensures
            final(buf).spec_bytes().len() >= old(buf).spec_bytes().len(),
            final(buf).spec_bytes().take(old(buf).spec_bytes().len() as int) == old(
                buf,
            ).spec_bytes(),
            final(buf).spec_capacity() == old(buf).spec_capacity(),
            r matches Ok(read) ==> final(buf).spec_bytes().len() == old(buf).spec_bytes().len()
                + read,
            exists|b: &mut [u8], got: Result<usize>|
                #![trigger call_ensures(Self::read, (self, b), got)]
                b@.len() + old(buf).spec_bytes().len() == old(buf).spec_capacity() && (forall|
                    i: int,
                | 0 <= i < b@.len() ==> b@[i] == 0) && call_ensures(Self::read, (self, b), got)
                    && match got {
                    Ok(n) => r == Ok::<usize, Error>(n) && final(buf).spec_bytes() == old(
                        buf,
                    ).spec_bytes() + final(b)@.take(n as int),
                    Err(e) => r == Err::<usize, Error>(e) && final(buf).spec_bytes() == old(
                        buf,
                    ).spec_bytes() + final(b)@,
                },
    {
        let ghost before = buf.spec_bytes();
        let had = buf.len();
        buf.resize_to_capacity();
        let ghost filled = buf.spec_bytes();
        let all = buf.as_mut_slice();
        let total = all.len();
        let (head, tail) = all.split_at_mut(had);
        assert(tail@.len() == total - had);
        let ghost handed = tail@;
        assert forall|i: int| 0 <= i < handed.len() implies handed[i] == 0 by {
            assert(handed[i] == filled[had + i]);
        }
        let outcome = self.read(tail);
        let ghost left = tail@;
        assert(head@ == filled.subrange(0, had as int));
        assert(buf.spec_bytes().take(had as int) =~= before);
        assert(buf.spec_bytes() =~= before + left);
        match outcome {
            Ok(read) => {
                let ghost full = buf.spec_bytes();
                buf.truncate(had + read);
                assert(buf.spec_bytes().take(had as int) =~= full.take(had as int));
                assert(buf.spec_bytes() =~= before + left.take(read as int));
                Ok(read)
            },
            Err(e) => Err(e),
        }
    }
}


/// A reference to a file is a file: so a file that is known by its trait
/// alone can be read to its end.
impl<T: DynFile + ?Sized> DynFile for &T {
    fn sync(&self) -> (r: Result<()>)
        ensures
            call_ensures(T::sync, (*self,), r),
    {
        (**self).sync()
    }

    fn len(&self) -> (r: Result<usize>)
        ensures
            call_ensures(<T as DynFile>::len, (*self,), r),
    {
        (**self).len()
    }

    fn is_empty(&self) -> (r: Result<bool>)
        ensures
            call_ensures(T::is_empty, (*self,), r),
    {
        (**self).is_empty()
    }

    fn set_len(&self, size: usize) -> (r: Result<()>)
        ensures
            call_ensures(T::set_len, (*self, size), r),
    {
        (**self).set_len(size)
    }
}

/// Reads from an open file as much as fits into a vector, by one `read`.
///
/// A buffer of null bytes, as long as the vector can hold, is handed to
/// `read` of the file. Where that succeeds, the vector that is handed back
/// holds as many bytes from the start of what `read` left in the buffer as
/// `read` returned. Where it fails, its error is handed back.
pub fn read<F: DynFile, V: Vec>(file: &F) -> (r: Result<V>)
    ensures
        exists|b: &mut [u8], got: Result<usize>|
            #![trigger call_ensures(F::read, (file, b), got)]
            (forall|i: int| 0 <= i < b@.len() ==> b@[i] == 0) && call_ensures(
                F::read,
                (file, b),
                got,
            ) && match got {
                Ok(n) => r matches Ok(v) && v.spec_bytes() == final(b)@.take(n as int)
                    && b@.len() == v.spec_capacity(),
                Err(e) => r == Err::<V, Error>(e),
            },
{
    let mut contents = V::empty();
    let ghost empty = contents.spec_bytes();
    match file.read_to_end(&mut contents) {
        Ok(_) => {
            proof {
                assert forall|s: Seq<u8>| #[trigger] (empty + s) == s by {
                    assert(empty + s =~= s);
                }
            }
            Ok(contents)
        },
        Err(e) => Err(e),
    }
}

/// Reads a chunk of an open file: seeks to `pos` and reads as much as fits
/// into a vector, by one `read`.
///
/// The file is sought to `pos`. Then a buffer of null bytes, as long as the
/// vector can hold, is handed to `read`, and the vector that is handed back
/// holds as many bytes from the start of what `read` left in the buffer as
/// `read` returned. With it comes
/// what `len` of the file returned. The first error ends the call and is
/// handed back.
pub fn read_chunk<F: DynFile, V: Vec>(file: &F, pos: OpenSeekFrom) -> (r: Result<(V, usize)>)
    ensures
        exists|sought: Result<usize>|
            #![trigger call_ensures(F::seek, (file, SeekFrom::from_spec(pos)), sought)]
            call_ensures(F::seek, (file, SeekFrom::from_spec(pos)), sought) && match sought {
                Err(e) => r == Err::<(V, usize), Error>(e),
                Ok(_) => exists|s: &mut [u8], got: Result<usize>|
                    #![trigger call_ensures(F::read, (file, s), got)]
                    (forall|i: int| 0 <= i < s@.len() ==> s@[i] == 0) && call_ensures(
                        F::read,
                        (file, s),
                        got,
                    ) && match got {
                        Err(e) => r == Err::<(V, usize), Error>(e),
                        Ok(n) => exists|size: Result<usize>|
                            #![trigger call_ensures(<F as DynFile>::len, (file,), size)]
                            call_ensures(<F as DynFile>::len, (file,), size) && match size {
                                Err(e) => r == Err::<(V, usize), Error>(e),
                                Ok(file_len) => r matches Ok((v, l)) && l == file_len
                                    && v.spec_bytes() == final(s)@.take(n as int) && s@.len()
                                    == v.spec_capacity(),
                            },
                    },
            },
{
    let mut contents = V::empty();
    contents.resize_to_capacity();
    match file.seek(SeekFrom::from(pos)) {
        Ok(_) => {},
        Err(e) => {
            return Err(e);
        },
    }
    let read_n = match file.read(contents.as_mut_slice()) {
        Ok(n) => n,
        Err(e) => {
            return Err(e);
        },
    };
    contents.truncate(read_n);
    match DynFile::len(file) {
        Ok(file_len) => Ok((contents, file_len)),
        Err(e) => Err(e),
    }
}

/// Writes a chunk of an open file: seeks to `pos` and writes all of
/// `contents`.
///
/// The file is sought to `pos`. Where that fails, nothing is written and
/// the error is handed back. Else `contents` is handed to `write_all` of the
/// file, and what that returns is handed back.
pub fn write_chunk<F: DynFile>(file: &F, contents: &[u8], pos: OpenSeekFrom) -> (r: Result<()>)
    ensures
        exists|sought: Result<usize>|
            #![trigger call_ensures(F::seek, (file, SeekFrom::from_spec(pos)), sought)]
            call_ensures(F::seek, (file, SeekFrom::from_spec(pos)), sought) && match sought {
                Ok(_) => call_ensures(F::write_all, (file, contents), r),
                Err(e) => r == Err::<(), Error>(e),
            },
{
    match file.seek(SeekFrom::from(pos)) {
        Ok(_) => file.write_all(contents),
        Err(e) => Err(e),
    }
}

} // verus!
