//! The `Storage` driver and what it declares about itself.

use crate::io::Result;
use vstd::prelude::*;

verus! {

/// The answer of a buffer that cannot be made as long as it was asked to be.
#[derive(Clone, Copy, Debug, PartialEq, Eq, Structural)]
pub struct NotEnoughCapacity;

/// The bytes `s` cut, or filled with null bytes, to the length `len`.
pub open spec fn resized(s: Seq<u8>, len: int) -> Seq<u8> {
    Seq::new(
        len as nat,
        |i: int|
            if i < s.len() {
                s[i]
            } else {
                0u8
            },
    )
}

/// The buffers that the filesystem can use as a cache.
pub trait Sealed: Sized {
    /// The bytes that the buffer holds.
    spec fn spec_bytes(&self) -> Seq<u8>;

    /// The number of bytes that the buffer holds.
    spec fn spec_len(&self) -> nat;

    /// Whether the buffer can be made to hold `len` bytes.
    spec fn spec_can_hold(&self, len: usize) -> bool;

    /// The bytes that the buffer holds after it was made to hold `len`
    /// bytes, where it can hold them.
    spec fn spec_with_len(&self, len: usize) -> Seq<u8>;

    /// Current length, set by the last call to `set_len`
    fn current_len(&self) -> (n: usize)
        ensures
            n == self.spec_len(),
            n == self.spec_bytes().len(),
    ;

    /// Attempts to set the length of the buffer to `len`
    ///
    /// This succeeds where the buffer can hold `len` bytes; it then holds
    /// at least as many. Else the buffer stays as it is.
    fn set_len(&mut self, len: usize) -> (r: core::result::Result<(), NotEnoughCapacity>)
        ensures
            r.is_ok() <==> old(self).spec_can_hold(len),
            r.is_ok() ==> final(self).spec_bytes() == old(self).spec_with_len(len),
            r.is_ok() ==> final(self).spec_len() >= len,
            r.is_err() ==> final(self).spec_bytes() == old(self).spec_bytes(),
    ;

    /// The bytes of the buffer, to be written over.
    fn as_mut_slice(&mut self) -> (s: &mut [u8])
        ensures
            s@ == old(self).spec_bytes(),
            final(self).spec_bytes() == final(s)@,
    ;

    // We could use a `Default` trait bound but it's not implemented for all array sizes
    fn empty() -> Self;
}

/// Implemented only by `[u8; N]` and `Vec<u8>`
pub trait Buffer: Sealed {

}

/// An array has room for its own length and no more, and holds all of its
/// bytes whatever length was asked for.
impl<const N: usize> Sealed for [u8; N] {
    open spec fn spec_bytes(&self) -> Seq<u8> {
        self@
    }

    open spec fn spec_len(&self) -> nat {
        N as nat
    }

    open spec fn spec_can_hold(&self, len: usize) -> bool {
        len <= N
    }

    open spec fn spec_with_len(&self, len: usize) -> Seq<u8> {
        self@
    }

    fn current_len(&self) -> (n: usize) {
        N
    }

    fn set_len(&mut self, len: usize) -> (r: core::result::Result<(), NotEnoughCapacity>)
        ensures
            r.is_ok() <==> len <= N,
            *final(self) == *old(self),
    {
        if len > N {
            Err(NotEnoughCapacity)
        } else {
            Ok(())
        }
    }

    fn as_mut_slice(&mut self) -> (s: &mut [u8]) {
        let s: &mut [u8] = self;
        s
    }

    fn empty() -> (r: Self)
        ensures
            forall|i: int| 0 <= i < N ==> r@[i] == 0,
    {
        [0u8;N]
    }
}

impl<const N: usize> Buffer for [u8; N] {

}

/// Cuts a vector, or fills it with zeros, to the length `len`.
pub fn resize_zeroed(v: &mut Vec<u8>, len: usize)
    ensures
        final(v)@ == resized(old(v)@, len as int),
        final(v)@.len() == len,
        forall|i: int| 0 <= i < len && i < old(v)@.len() ==> final(v)@[i] == old(v)@[i],
        forall|i: int| old(v)@.len() <= i < len ==> final(v)@[i] == 0,
{
    v.truncate(len);
    while v.len() < len
        invariant
            v@.len() <= len,
            v@.len() >= old(v)@.len() || v@.len() == len,
            forall|i: int| 0 <= i < v@.len() && i < old(v)@.len() ==> v@[i] == old(v)@[i],
            forall|i: int| old(v)@.len() <= i < v@.len() ==> v@[i] == 0,
        decreases len - v@.len(),
    {
        v.push(0);
    }
    assert(v@ =~= resized(old(v)@, len as int));
}

/// A vector can be made to hold any number of bytes: it is cut or filled
/// with null bytes to the length asked for.
impl Sealed for Vec<u8> {
    open spec fn spec_bytes(&self) -> Seq<u8> {
        self@
    }

    open spec fn spec_len(&self) -> nat {
        self@.len()
    }

    open spec fn spec_can_hold(&self, len: usize) -> bool {
        true
    }

    open spec fn spec_with_len(&self, len: usize) -> Seq<u8> {
        resized(self@, len as int)
    }

    fn current_len(&self) -> (n: usize) {
        self.len()
    }

    /// The vector is cut or filled with null bytes to the length asked
    /// for, which always succeeds: see [`resize_zeroed`].
    fn set_len(&mut self, len: usize) -> (r: core::result::Result<(), NotEnoughCapacity>) {
        resize_zeroed(self, len);
        Ok(())
    }

    fn as_mut_slice(&mut self) -> (s: &mut [u8]) {
        self.as_mut_slice()
    }

    fn empty() -> (r: Self)
        ensures
            r@.len() == 0,
    {
        Vec::new()
    }
}

impl Buffer for Vec<u8> {

}

/// Users of this library provide a "storage driver" by implementing this trait.
///
/// The `write` method is assumed to be synchronized to storage immediately.
/// Do note that due to caches, files still must be synched.
#[allow(non_camel_case_types)]
pub trait Storage {
    /// Minimum size of block read in bytes. Not in superblock
    fn read_size(&self) -> usize;

    /// Minimum size of block write in bytes. Not in superblock
    fn write_size(&self) -> usize;

    /// Size of an erasable block in bytes.
    /// Must be a multiple of both `read_size` and `write_size`.
    /// At least 128. Stored in superblock.
    fn block_size(&self) -> usize;

    /// Number of erasable blocks.
    /// Hence storage capacity is `block_count * block_size`
    fn block_count(&self) -> usize;

    /// Suggested values are 100-1000, higher is more performant but
    /// less wear-leveled.  Default of -1 disables wear-leveling.
    /// Value zero is invalid, must be positive or -1.
    fn block_cycles(&self) -> (r: isize)
        default_ensures
            r == -1,
    {
        -1
    }

    /// The filesystem uses a read cache, a write cache, and one cache per file.
    type CACHE_BUFFER: Buffer;

    /// Must be a multiple of `read_size` and `write_size`.
    /// Must be a factor of `block_size`.
    fn cache_size(&self) -> usize;

    /// Lookahead buffer used by the filesystem
    type LOOKAHEAD_BUFFER: Buffer;

    /// Size of the lookahead buffer, measured in multiples of 8 bytes.
    fn lookahead_size(&self) -> usize;

    /// Read data from the storage device.
    /// Guaranteed to be called only with bufs of length a multiple of `read_size`.
    fn read(&mut self, off: usize, buf: &mut [u8]) -> Result<usize>;

    /// Write data to the storage device.
    /// Guaranteed to be called only with bufs of length a multiple of `write_size`.
    fn write(&mut self, off: usize, data: &[u8]) -> Result<usize>;

    /// Erase data from the storage device.
    /// Guaranteed to be called only with bufs of length a multiple of `block_size`.
    fn erase(&mut self, off: usize, len: usize) -> Result<usize>;
}

/// What a storage driver declares about itself.
#[derive(Clone, Copy, Debug, PartialEq, Eq, Structural)]
pub struct Geometry {
    /// Minimum size of block read in bytes.
    pub read_size: usize,
    /// Minimum size of block write in bytes.
    pub write_size: usize,
    /// Size of an erasable block in bytes.
    pub block_size: usize,
    /// Number of erasable blocks.
    pub block_count: usize,
    /// Number of erase cycles after which metadata is moved, or -1.
    pub block_cycles: isize,
    /// Size of each cache in bytes.
    pub cache_size: usize,
    /// Size of the lookahead buffer, measured in multiples of 8 bytes.
    pub lookahead_size: usize,
}

impl Geometry {
    /// Whether a filesystem can be set up on a storage with this geometry.
    ///
    /// Every size is positive and fits in 32 bits. The block cycles are
    /// positive or -1. A block holds at least 128 bytes. The cache size is a
    /// multiple of the read size and of the write size, and the block size is
    /// a multiple of the cache size.
    pub open spec fn is_valid(self) -> bool {
        &&& 0 < self.read_size <= u32::MAX
        &&& 0 < self.write_size <= u32::MAX
        &&& 128 <= self.block_size <= u32::MAX
        &&& 0 < self.block_count <= u32::MAX
        &&& (self.block_cycles == -1 || 0 < self.block_cycles <= i32::MAX)
        &&& 0 < self.cache_size <= u32::MAX
        &&& 0 < self.lookahead_size
        &&& 8 * self.lookahead_size <= u32::MAX
        &&& self.read_size <= self.cache_size
        &&& self.cache_size % self.read_size == 0
        &&& self.write_size <= self.cache_size
        &&& self.cache_size % self.write_size == 0
        &&& self.cache_size <= self.block_size
        &&& self.block_size % self.cache_size == 0
    }

    /// Tells whether a filesystem can be set up on a storage with this geometry.
    pub fn check(&self) -> (r: bool)
        ensures
            r == self.is_valid(),
    {
        0 < self.read_size && self.read_size <= 0xffff_ffff && 0 < self.write_size
            && self.write_size <= 0xffff_ffff && 128 <= self.block_size && self.block_size
            <= 0xffff_ffff && 0 < self.block_count && self.block_count <= 0xffff_ffff && (
        self.block_cycles == -1 || (0 < self.block_cycles && self.block_cycles <= 0x7fff_ffff))
            && 0 < self.cache_size && self.cache_size <= 0xffff_ffff && 0 < self.lookahead_size
            && self.lookahead_size <= 0x1fff_ffff && self.read_size <= self.cache_size
            && self.cache_size % self.read_size == 0 && self.write_size <= self.cache_size
            && self.cache_size % self.write_size == 0 && self.cache_size <= self.block_size
            && self.block_size % self.cache_size == 0
    }

    /// What the driver `storage` declares: each number is what the method
    /// of the driver that declares it returns.
    pub fn of<S: Storage>(storage: &S) -> (r: Geometry)
        ensures
            call_ensures(S::read_size, (storage,), r.read_size),
            call_ensures(S::write_size, (storage,), r.write_size),
            call_ensures(S::block_size, (storage,), r.block_size),
            call_ensures(S::block_count, (storage,), r.block_count),
            call_ensures(S::block_cycles, (storage,), r.block_cycles),
            call_ensures(S::cache_size, (storage,), r.cache_size),
            call_ensures(S::lookahead_size, (storage,), r.lookahead_size),
    {
        Geometry {
            read_size: storage.read_size(),
            write_size: storage.write_size(),
            block_size: storage.block_size(),
            block_count: storage.block_count(),
            block_cycles: storage.block_cycles(),
            cache_size: storage.cache_size(),
            lookahead_size: storage.lookahead_size(),
        }
    }

    /// Total number of blocks in the filesystem
    pub fn total_blocks(&self) -> (r: usize)
        ensures
            r == self.block_count,
    {
        self.block_count
    }

    /// Total number of bytes in the filesystem
    pub fn total_space(&self) -> (r: usize)
        requires
            self.block_count * self.block_size <= usize::MAX,
        ensures
            r == self.block_count * self.block_size,
    {
        self.block_count * self.block_size
    }
}

/// In a valid geometry a block is made of whole reads and of whole writes.
pub proof fn lemma_block_is_multiple_of_read_and_write(g: Geometry)
    requires
        g.is_valid(),
    ensures
        g.block_size % g.read_size == 0,
        g.block_size % g.write_size == 0,
{
    lemma_multiple_of_multiple(g.block_size as int, g.cache_size as int, g.read_size as int);
    lemma_multiple_of_multiple(g.block_size as int, g.cache_size as int, g.write_size as int);
}

/// A multiple of a multiple of `c` is a multiple of `c`.
pub proof fn lemma_multiple_of_multiple(a: int, b: int, c: int)
    requires
        0 < c,
        0 < b,
        0 <= a,
        a % b == 0,
        b % c == 0,
    ensures
        a % c == 0,
{
    vstd::arithmetic::div_mod::lemma_fundamental_div_mod(a, b);
    vstd::arithmetic::div_mod::lemma_fundamental_div_mod(b, c);
    let q = a / b;
    let p = b / c;
    assert(a == (c * p) * q);
    assert((c * p) * q == c * (p * q)) by (nonlinear_arith);
    vstd::arithmetic::div_mod::lemma_mod_multiples_basic(p * q, c);
    assert(c * (p * q) == (p * q) * c) by (nonlinear_arith);
}

} // verus!
