//! File names as the backend hands them out.

use crate::bytes::{first_index_of, lemma_first_index_of_bounds, position};
use vstd::prelude::*;
use vstd::slice::slice_subrange;

verus! {

/// `s` up to its first null byte.
pub open spec fn up_to_first_nul(s: Seq<u8>) -> Seq<u8> {
    s.take(first_index_of(s, 0))
}

/// `s` cut to at most `n` bytes.
pub open spec fn at_most(s: Seq<u8>, n: int) -> Seq<u8> {
    if s.len() <= n {
        s
    } else {
        s.take(n)
    }
}

/// The name of a file: at most 255 bytes, which need not be ASCII, in a
/// buffer of 256 bytes.
#[derive(Clone, Copy, Debug)]
pub struct Filename {
    buf: [u8; 256],
    len: usize,
}

impl View for Filename {
    type V = Seq<u8>;

    /// The bytes that the buffer holds at its present length.
    closed spec fn view(&self) -> Seq<u8> {
        self.buf@.take(self.len as int)
    }
}

impl Filename {
    /// The number of bytes that the buffer of a name can hold.
    pub const CAPACITY: usize = 256;

    #[verifier::type_invariant]
    pub closed spec fn well_formed(self) -> bool {
        &&& self.len <= 256
        &&& forall|i: int| self.len <= i < 256 ==> self.buf@[i] == 0
    }

    /// The name that `f` holds: what stands before its first null byte.
    ///
    /// Silently truncates to the maximum length of 255 bytes.
    pub fn new(f: &[u8]) -> (r: Filename)
        ensures
            r@ == up_to_first_nul(at_most(f@, 255)),
            r@.len() <= 255,
    {
        let len = if f.len() <= 255 {
            f.len()
        } else {
            255
        };
        let head = slice_subrange(f, 0, len);
        assert(head@ =~= at_most(f@, 255));
        let mut buf = [0u8; 256];
        let mut i: usize = 0;
        while i < len
            invariant
                len == head@.len(),
                len <= 255,
                i <= len,
                forall|j: int| 0 <= j < i ==> buf@[j] == head@[j],
                forall|j: int| i <= j < 256 ==> buf@[j] == 0,
            decreases len - i,
        {
            buf[i] = head[i];
            i = i + 1;
        }
        assert(buf@.take(len as int) =~= head@);
        let mut filename = Filename { buf, len };
        filename.shrink_to_first_null();
        proof {
            lemma_first_index_of_bounds(head@, 0);
        }
        filename
    }

    /// The bytes of the name.
    pub fn as_bytes(&self) -> (r: &[u8])
        ensures
            r@ == self@,
            r@.len() <= 256,
    {
        proof {
            use_type_invariant(self);
        }
        let r = slice_subrange(self.buf.as_slice(), 0, self.len);
        assert(r@ == self.buf@.take(self.len as int));
        r
    }

    /// Cuts the buffer at its first null byte.
    pub fn shrink_to_first_null(&mut self) -> (r: &mut Filename)
        ensures
            r@ == up_to_first_nul(old(self)@),
            *final(self) == *final(r),
    {
        proof {
            use_type_invariant(&*self);
            lemma_first_index_of_bounds(self@, 0);
        }
        let len = match position(self.as_bytes(), 0) {
            Some(i) => i,
            None => self.len,
        };
        // what stood behind the null byte is cleared
        let mut buf = self.buf;
        let mut i = len;
        while i < self.len
            invariant
                len <= i <= self.len <= 256,
                forall|j: int| 0 <= j < len ==> buf@[j] == self.buf@[j],
                forall|j: int| len <= j < i ==> buf@[j] == 0,
                forall|j: int| i <= j < 256 ==> buf@[j] == self.buf@[j],
                forall|j: int| self.len <= j < 256 ==> self.buf@[j] == 0,
            decreases self.len - i,
        {
            buf[i] = 0;
            i = i + 1;
        }
        assert(buf@.take(len as int) =~= self@.take(len as int));
        *self = Filename { buf, len };
        self
    }

    /// The name cut at its first null byte.
    pub fn shrunk_to_first_null(self) -> (r: Filename)
        ensures
            r@ == up_to_first_nul(self@),
    {
        let mut self_ = self;
        self_.shrink_to_first_null();
        self_
    }

    /// Fills the buffer with null bytes up to its capacity of 256 bytes.
    pub fn resize_to_capacity(&mut self) -> (r: &mut Filename)
        ensures
            r@.len() == 256,
            r@.take(old(self)@.len() as int) == old(self)@,
            forall|i: int| old(self)@.len() <= i < 256 ==> r@[i] == 0,
            *final(self) == *final(r),
    {
        proof {
            use_type_invariant(&*self);
        }
        let ghost before = self@;
        *self = Filename { buf: self.buf, len: 256 };
        assert(self@.take(before.len() as int) =~= before);
        self
    }

    /// The name in a record of the backend: what stands before the first
    /// null byte, and at most 255 bytes.
    pub fn from_littlefs_file_name_c_string(name: &[u8; 256]) -> (r: Filename)
        ensures
            r@ == up_to_first_nul(at_most(name@, 255)),
            r@.len() <= 255,
    {
        Filename::new(name.as_slice())
    }
}

impl PartialEq for Filename {
    fn eq(&self, other: &Filename) -> (r: bool) {
        crate::bytes::bytes_eq(self.as_bytes(), other.as_bytes())
    }
}

impl vstd::std_specs::cmp::PartialEqSpecImpl for Filename {
    open spec fn obeys_eq_spec() -> bool {
        true
    }

    open spec fn eq_spec(&self, other: &Filename) -> bool {
        self@ == other@
    }
}

impl Eq for Filename {

}

} // verus!
