//! A storage in memory.

use crate::driver::{Geometry, Storage};
use crate::io::{Error, Result};
use vstd::prelude::*;

verus! {

/// The bytes `s` after `data` was written at the offset `off`.
pub open spec fn written(s: Seq<u8>, off: int, data: Seq<u8>) -> Seq<u8> {
    Seq::new(
        s.len(),
        |i: int|
            if off <= i < off + data.len() {
                data[i - off]
            } else {
                s[i]
            },
    )
}

/// The bytes `s` after `len` bytes at the offset `off` were erased to `value`.
pub open spec fn erased(s: Seq<u8>, off: int, len: int, value: u8) -> Seq<u8> {
    Seq::new(
        s.len(),
        |i: int|
            if off <= i < off + len {
                value
            } else {
                s[i]
            },
    )
}

/// Whether `len` bytes at the offset `off` lie within a storage of `size` bytes.
pub open spec fn in_range(size: int, off: int, len: int) -> bool {
    0 <= off && 0 <= len && off + len <= size
}

/// A configurable implementation of the `Storage` trait in memory.
#[derive(Debug)]
pub struct RamStorage {
    buf: Vec<u8>,
    geometry: Geometry,
    erase_value: u8,
}

impl View for RamStorage {
    type V = Seq<u8>;

    /// The bytes that the storage holds.
    closed spec fn view(&self) -> Seq<u8> {
        self.buf@
    }
}

impl RamStorage {
    /// What the storage declares about itself.
    pub closed spec fn spec_geometry(&self) -> Geometry {
        self.geometry
    }

    /// The value that erased bytes have.
    pub closed spec fn spec_erase_value(&self) -> u8 {
        self.erase_value
    }

    /// A storage of the given geometry, all of it erased, where its bytes
    /// can be counted.
    pub fn new(geometry: Geometry, erase_value: u8) -> (r: Option<RamStorage>)
        ensures
            r.is_some() <==> geometry.block_count * geometry.block_size <= usize::MAX,
            r matches Some(ram) ==> ram.spec_geometry() == geometry && ram.spec_erase_value()
                == erase_value && ram@.len() == geometry.block_count * geometry.block_size
                && forall|i: int| 0 <= i < ram@.len() ==> ram@[i] == erase_value,
    {
        match geometry.block_count.checked_mul(geometry.block_size) {
            None => None,
            Some(size) => {
                let mut buf: Vec<u8> = Vec::new();
                while buf.len() < size
                    invariant
                        buf@.len() <= size,
                        forall|i: int| 0 <= i < buf@.len() ==> buf@[i] == erase_value,
                    decreases size - buf@.len(),
                {
                    buf.push(erase_value);
                }
                Some(RamStorage { buf, geometry, erase_value })
            },
        }
    }

    /// A storage of 8 blocks of 128 bytes, read and written 32 bytes at a time.
    pub fn tiny() -> (r: RamStorage)
        ensures
            r@.len() == 1024,
            r.spec_geometry().is_valid(),
            r.spec_erase_value() == 0xff,
    {
        let geometry = Geometry {
            read_size: 32,
            write_size: 32,
            block_size: 128,
            block_count: 8,
            block_cycles: -1,
            cache_size: 32,
            lookahead_size: 1,
        };
        assert(8 * 128 == 1024) by (nonlinear_arith);
        RamStorage::new(geometry, 0xff).unwrap()
    }

    /// A storage of 512 blocks of 256 bytes, read and written 32 bytes at a time.
    pub fn large() -> (r: RamStorage)
        ensures
            r@.len() == 131072,
            r.spec_geometry().is_valid(),
            r.spec_erase_value() == 0xff,
    {
        let geometry = Geometry {
            read_size: 32,
            write_size: 32,
            block_size: 256,
            block_count: 512,
            block_cycles: -1,
            cache_size: 32,
            lookahead_size: 4,
        };
        assert(512 * 256 == 131072) by (nonlinear_arith);
        RamStorage::new(geometry, 0xff).unwrap()
    }

    /// A storage of blocks of 128 bytes that holds what fits of `bytes`
    /// bytes in whole blocks, read and written byte by byte.
    pub fn with_bytes(bytes: usize) -> (r: RamStorage)
        ensures
            r@.len() == (bytes / 128) * 128,
            r.spec_geometry().block_size == 128,
            r.spec_geometry().block_count == bytes / 128,
            r.spec_erase_value() == 0xff,
    {
        let geometry = Geometry {
            read_size: 1,
            write_size: 1,
            block_size: 128,
            block_count: bytes / 128,
            block_cycles: -1,
            cache_size: 32,
            lookahead_size: 1,
        };
        RamStorage::new(geometry, 0xff).unwrap()
    }

    /// The bytes that the storage holds.
    pub fn as_bytes(&self) -> (r: &[u8])
        ensures
            r@ == self@,
    {
        self.buf.as_slice()
    }
}

impl Storage for RamStorage {
    fn read_size(&self) -> (r: usize)
        ensures
            r == self.spec_geometry().read_size,
    {
        self.geometry.read_size
    }

    fn write_size(&self) -> (r: usize)
        ensures
            r == self.spec_geometry().write_size,
    {
        self.geometry.write_size
    }

    fn block_size(&self) -> (r: usize)
        ensures
            r == self.spec_geometry().block_size,
    {
        self.geometry.block_size
    }

    fn block_count(&self) -> (r: usize)
        ensures
            r == self.spec_geometry().block_count,
    {
        self.geometry.block_count
    }

    fn block_cycles(&self) -> (r: isize)
        ensures
            r == self.spec_geometry().block_cycles,
    {
        self.geometry.block_cycles
    }

    type CACHE_BUFFER = Vec<u8>;

    fn cache_size(&self) -> (r: usize)
        ensures
            r == self.spec_geometry().cache_size,
    {
        self.geometry.cache_size
    }

    type LOOKAHEAD_BUFFER = Vec<u8>;

    fn lookahead_size(&self) -> (r: usize)
        ensures
            r == self.spec_geometry().lookahead_size,
    {
        self.geometry.lookahead_size
    }

    /// Reads the bytes at the offset `off` into `buf`. Outside the storage
    /// nothing is read: that is an I/O error.
    fn read(&mut self, off: usize, buf: &mut [u8]) -> (r: Result<usize>)
        ensures
            *final(self) == *old(self),
            final(buf)@.len() == old(buf)@.len(),
            in_range(old(self)@.len() as int, off as int, old(buf)@.len() as int) ==> r == Ok::<
                usize,
                Error,
            >(old(buf)@.len() as usize) && final(buf)@ == old(self)@.subrange(
                off as int,
                off + old(buf)@.len(),
            ),
            !in_range(old(self)@.len() as int, off as int, old(buf)@.len() as int) ==> r == Err::<
                usize,
                Error,
            >(Error::io()) && final(buf)@ == old(buf)@,
    {
        let n = buf.len();
        if off > self.buf.len() || n > self.buf.len() - off {
            return Err(Error::io());
        }
        let size = self.buf.len();
        let mut i: usize = 0;
        while i < n
            invariant
                n == buf@.len(),
                size == self.buf@.len(),
                off + n <= self.buf@.len(),
                i <= n,
                forall|j: int| 0 <= j < i ==> buf@[j] == self.buf@[off + j],
            decreases n - i,
        {
            buf[i] = self.buf[off + i];
            i = i + 1;
        }
        assert(buf@ =~= self.buf@.subrange(off as int, off + n));
        Ok(n)
    }

    /// Writes `data` at the offset `off`. Outside the storage nothing is
    /// written: that is an I/O error.
    fn write(&mut self, off: usize, data: &[u8]) -> (r: Result<usize>)
        ensures
            final(self).spec_geometry() == old(self).spec_geometry(),
            final(self).spec_erase_value() == old(self).spec_erase_value(),
            in_range(old(self)@.len() as int, off as int, data@.len() as int) ==> r == Ok::<
                usize,
                Error,
            >(data@.len() as usize) && final(self)@ == written(old(self)@, off as int, data@),
            !in_range(old(self)@.len() as int, off as int, data@.len() as int) ==> r == Err::<
                usize,
                Error,
            >(Error::io()) && final(self)@ == old(self)@,
    {
        let n = data.len();
        if off > self.buf.len() || n > self.buf.len() - off {
            return Err(Error::io());
        }
        let size = self.buf.len();
        let mut i: usize = 0;
        while i < n
            invariant
                n == data@.len(),
                size == self.buf@.len(),
                self.buf@.len() == old(self).buf@.len(),
                off + n <= self.buf@.len(),
                i <= n,
                self.geometry == old(self).geometry,
                self.erase_value == old(self).erase_value,
                forall|j: int| 0 <= j < self.buf@.len() ==> self.buf@[j] == if off <= j < off + i {
                    data@[j - off]
                } else {
                    old(self).buf@[j]
                },
            decreases n - i,
        {
            self.buf[off + i] = data[i];
            i = i + 1;
        }
        assert(self.buf@ =~= written(old(self).buf@, off as int, data@));
        Ok(n)
    }

    /// Erases `len` bytes at the offset `off`. Outside the storage nothing
    /// is erased: that is an I/O error.
    fn erase(&mut self, off: usize, len: usize) -> (r: Result<usize>)
        ensures
            final(self).spec_geometry() == old(self).spec_geometry(),
            final(self).spec_erase_value() == old(self).spec_erase_value(),
            in_range(old(self)@.len() as int, off as int, len as int) ==> r == Ok::<usize, Error>(
                len,
            ) && final(self)@ == erased(
                old(self)@,
                off as int,
                len as int,
                old(self).spec_erase_value(),
            ),
            !in_range(old(self)@.len() as int, off as int, len as int) ==> r == Err::<
                usize,
                Error,
            >(Error::io()) && final(self)@ == old(self)@,
    {
        if off > self.buf.len() || len > self.buf.len() - off {
            return Err(Error::io());
        }
        let size = self.buf.len();
        let mut i: usize = 0;
        while i < len
            invariant
                size == self.buf@.len(),
                self.buf@.len() == old(self).buf@.len(),
                off + len <= self.buf@.len(),
                i <= len,
                self.geometry == old(self).geometry,
                self.erase_value == old(self).erase_value,
                forall|j: int| 0 <= j < self.buf@.len() ==> self.buf@[j] == if off <= j < off + i {
                    self.erase_value
                } else {
                    old(self).buf@[j]
                },
            decreases len - i,
        {
            self.buf[off + i] = self.erase_value;
            i = i + 1;
        }
        assert(self.buf@ =~= erased(old(self).buf@, off as int, len as int, self.erase_value));
        Ok(len)
    }
}

/// What was written is read back: after bytes were written at an offset,
/// the storage holds them there, and all else as before.
pub proof fn lemma_read_after_write(s: Seq<u8>, off: int, data: Seq<u8>)
    requires
        in_range(s.len() as int, off, data.len() as int),
    ensures
        written(s, off, data).len() == s.len(),
        written(s, off, data).subrange(off, off + data.len()) == data,
        forall|i: int| 0 <= i < s.len() && !(off <= i < off + data.len()) ==> written(
            s,
            off,
            data,
        )[i] == s[i],
{
    assert(written(s, off, data).subrange(off, off + data.len()) =~= data);
}

/// What was erased reads as the erase value, and all else as before.
pub proof fn lemma_read_after_erase(s: Seq<u8>, off: int, len: int, value: u8)
    requires
        in_range(s.len() as int, off, len),
    ensures
        erased(s, off, len, value).len() == s.len(),
        forall|i: int| off <= i < off + len ==> erased(s, off, len, value)[i] == value,
        forall|i: int| 0 <= i < s.len() && !(off <= i < off + len) ==> erased(s, off, len, value)[i]
            == s[i],
{
}

} // verus!
