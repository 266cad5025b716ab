//! Paths
//!
//! A path is an ASCII string without null bytes of at most
//! [`PathBuf::MAX_SIZE`] bytes, stored with a trailing null byte. [`Path`]
//! borrows such a string and [`PathBuf`] owns one. Both are viewed as the
//! sequence of their bytes without the trailing null.

use crate::bytes::{
    bytes_eq, common_prefix_len, first_index_of, is_proper_prefix, last_index_of,
    lemma_first_index_of_bounds, lemma_last_index_of_bounds, lemma_mismatch_bounds,
    lemma_mismatch_of_prefix, lemma_mismatch_symmetric, mismatch, position, rposition,
};
use core::cmp::Ordering;
use vstd::prelude::*;
use vstd::slice::slice_subrange;
use vstd::string::StringSliceAdditionalSpecFns;

verus! {

/// The byte that separates the components of a path: a forward slash.
pub const SEPARATOR: u8 = 47;

/// Errors that arise from converting byte buffers into paths
#[derive(Clone, Copy, Debug, PartialEq, Eq, Structural)]
pub enum PathError {
    /// Byte buffer contains non-ASCII characters
    NotAscii,
    /// Byte buffer is not a C string
    NotCStr,
    /// Byte buffer is too long (longer than [`PathBuf::MAX_SIZE_PLUS_ONE`])
    TooLarge,
}

/// The bytes of `s` are ASCII.
pub open spec fn is_ascii_text(s: Seq<u8>) -> bool {
    forall|i: int| 0 <= i < s.len() ==> s[i] < 128
}

/// No byte of `s` is null.
pub open spec fn has_no_nul(s: Seq<u8>) -> bool {
    forall|i: int| 0 <= i < s.len() ==> s[i] != 0
}

/// What a path may hold: ASCII bytes, none of them null, at most 255 of them.
pub open spec fn is_path_text(s: Seq<u8>) -> bool {
    &&& s.len() <= 255
    &&& has_no_nul(s)
    &&& is_ascii_text(s)
}

/// A C string: it ends in its only null byte.
pub open spec fn is_c_string(s: Seq<u8>) -> bool {
    &&& s.len() >= 1
    &&& s.last() == 0
    &&& has_no_nul(s.drop_last())
}

/// `s` without its last byte where that is null.
pub open spec fn without_trailing_nul(s: Seq<u8>) -> Seq<u8> {
    if s.len() > 0 && s.last() == 0 {
        s.drop_last()
    } else {
        s
    }
}

/// The index of the first byte of `s` that a path cannot hold, or `s.len()`.
pub open spec fn first_bad_byte(s: Seq<u8>) -> int
    decreases s.len(),
{
    if s.len() == 0 {
        0
    } else if s[0] == 0 || s[0] >= 128 {
        0
    } else {
        1 + first_bad_byte(s.skip(1))
    }
}

/// What the conversion of a null-terminated buffer into a path gives: the
/// text before the null byte, or the reason why there is none.
pub open spec fn path_of_c_string(s: Seq<u8>) -> Result<Seq<u8>, PathError> {
    if !is_c_string(s) {
        Err(PathError::NotCStr)
    } else if s.len() - 1 > 255 {
        Err(PathError::TooLarge)
    } else if is_ascii_text(s.drop_last()) {
        Ok(s.drop_last())
    } else {
        Err(PathError::NotAscii)
    }
}

/// What the conversion of a buffer with or without a trailing null byte into
/// an owned path gives. Of several faults the length is reported first, then
/// the first byte that a path cannot hold.
pub open spec fn path_of_bytes(s: Seq<u8>) -> Result<Seq<u8>, PathError> {
    let t = without_trailing_nul(s);
    let i = first_bad_byte(t);
    if t.len() > 255 {
        Err(PathError::TooLarge)
    } else if i == t.len() {
        Ok(t)
    } else if t[i] == 0 {
        Err(PathError::NotCStr)
    } else {
        Err(PathError::NotAscii)
    }
}

/// `first_bad_byte` is the one index below which every byte may stand in a
/// path and at which one may not, or the length.
pub proof fn lemma_first_bad_byte(s: Seq<u8>, i: int)
    requires
        0 <= i <= s.len(),
        forall|j: int| 0 <= j < i ==> s[j] != 0 && s[j] < 128,
        i < s.len() ==> s[i] == 0 || s[i] >= 128,
    ensures
        first_bad_byte(s) == i,
    decreases s.len(),
{
    if s.len() != 0 && !(s[0] == 0 || s[0] >= 128) {
        let t = s.skip(1);
        assert forall|j: int| 0 <= j < i - 1 implies t[j] != 0 && t[j] < 128 by {
            assert(t[j] == s[j + 1]);
        }
        lemma_first_bad_byte(t, i - 1);
    }
}

/// A path
///
/// Paths are null terminated ASCII strings with at most [`PathBuf::MAX_SIZE`]
/// bytes (not including the trailing null).
#[derive(Clone, Copy, Debug)]
pub struct Path<'a> {
    // the text and its trailing null
    inner: &'a [u8],
}

impl<'a> View for Path<'a> {
    type V = Seq<u8>;

    closed spec fn view(&self) -> Seq<u8> {
        self.inner@.drop_last()
    }
}

/// An owned, mutable path
///
/// Paths are null terminated ASCII strings with at most [`PathBuf::MAX_SIZE`]
/// bytes (not including the trailing null).
#[derive(Clone, Copy, Debug)]
pub struct PathBuf {
    buf: [u8; 256],
    // NOTE `len` DOES include the final null byte
    len: usize,
}

impl View for PathBuf {
    type V = Seq<u8>;

    closed spec fn view(&self) -> Seq<u8> {
        self.buf@.subrange(0, self.len - 1)
    }
}

impl<'a> Path<'a> {
    #[verifier::type_invariant]
    pub closed spec fn well_formed(self) -> bool {
        &&& self.inner@.len() >= 1
        &&& self.inner@.last() == 0
        &&& is_path_text(self.inner@.drop_last())
    }

    /// Creates a path from a byte buffer.
    ///
    /// The byte buffer must only consist of ASCII characters.  The last character must be null.
    /// It must contain at most [`PathBuf::MAX_SIZE`] bytes, not including the trailing null.  If
    /// these conditions are not met, this function returns an error.
    pub fn from_bytes_with_nul(bytes: &'a [u8]) -> (r: Result<Path<'a>, PathError>)
        ensures
            match r {
                Ok(p) => path_of_c_string(bytes@) == Ok::<Seq<u8>, PathError>(p@) && is_path_text(
                    p@,
                ),
                Err(e) => path_of_c_string(bytes@) == Err::<Seq<u8>, PathError>(e),
            },
    {
        let n = bytes.len();
        match position(bytes, 0) {
            Some(i) => {
                proof {
                    lemma_first_index_of_bounds(bytes@, 0);
                }
                if i + 1 == n {
                    assert(is_c_string(bytes@)) by {
                        assert forall|j: int| 0 <= j < bytes@.drop_last().len() implies bytes@.drop_last()[j]
                            != 0 by {
                            assert(bytes@.drop_last()[j] == bytes@[j]);
                        }
                    }
                    Path::from_cstr(bytes)
                } else {
                    assert(!is_c_string(bytes@)) by {
                        assert(bytes@.drop_last()[i as int] == bytes@[i as int]);
                    }
                    Err(PathError::NotCStr)
                }
            },
            None => {
                proof {
                    lemma_first_index_of_bounds(bytes@, 0);
                }
                Err(PathError::NotCStr)
            },
        }
    }

    /// Creates a path from a C string, given with its trailing null byte.
    ///
    /// The string must only consist of ASCII characters.  It must contain at most
    /// [`PathBuf::MAX_SIZE`] bytes, not including the trailing null.  If these conditions are
    /// not met, this function returns an error.
    pub fn from_cstr(cstr: &'a [u8]) -> (r: Result<Path<'a>, PathError>)
        requires
            is_c_string(cstr@),
        ensures
            match r {
                Ok(p) => path_of_c_string(cstr@) == Ok::<Seq<u8>, PathError>(p@) && is_path_text(
                    p@,
                ),
                Err(e) => path_of_c_string(cstr@) == Err::<Seq<u8>, PathError>(e),
            },
    {
        let n = cstr.len() - 1;
        if n > PathBuf::MAX_SIZE {
            Err(PathError::TooLarge)
        } else if is_ascii(slice_subrange(cstr, 0, n)) {
            assert(cstr@.subrange(0, n as int) == cstr@.drop_last());
            Ok(Path::from_cstr_unchecked(cstr))
        } else {
            assert(cstr@.subrange(0, n as int) == cstr@.drop_last());
            Err(PathError::NotAscii)
        }
    }

    /// Creates a path from a C string, given with its trailing null byte,
    /// without checking the invariants.
    ///
    /// The string must only consist of ASCII characters.  It must contain at most
    /// [`PathBuf::MAX_SIZE`] bytes, not including the trailing null.
    pub fn from_cstr_unchecked(cstr: &'a [u8]) -> (r: Path<'a>)
        requires
            is_c_string(cstr@),
            is_path_text(cstr@.drop_last()),
        ensures
            r@ == cstr@.drop_last(),
    {
        Path { inner: cstr }
    }

    /// Creates a path from a string.
    ///
    /// The string must only consist of ASCII characters.  The last character must be null.  It
    /// must contain at most [`PathBuf::MAX_SIZE`] bytes, not including the trailing null.  If
    /// these conditions are not met, this function returns an error.
    pub fn from_str_with_nul(s: &'a str) -> (r: Result<Path<'a>, PathError>)
        ensures
            match r {
                Ok(p) => path_of_c_string(s.spec_bytes()) == Ok::<Seq<u8>, PathError>(p@)
                    && is_path_text(p@),
                Err(e) => path_of_c_string(s.spec_bytes()) == Err::<Seq<u8>, PathError>(e),
            },
    {
        Path::from_bytes_with_nul(s.as_bytes())
    }

    /// The bytes of the path, without the trailing null.
    pub fn as_bytes(&self) -> (r: &'a [u8])
        ensures
            r@ == self@,
            is_path_text(self@),
    {
        proof {
            use_type_invariant(self);
        }
        let n = self.inner.len() - 1;
        let r = slice_subrange(self.inner, 0, n);
        assert(r@ == self.inner@.drop_last());
        r
    }

    /// The bytes of the path with the trailing null.
    pub fn as_bytes_with_nul(&self) -> (r: &'a [u8])
        ensures
            r@ == self@.push(0),
            is_path_text(self@),
    {
        proof {
            use_type_invariant(self);
            assert(self.inner@ == self.inner@.drop_last().push(0));
        }
        self.inner
    }

    /// The number of bytes in the path, not counting the trailing null.
    pub fn len(&self) -> (n: usize)
        ensures
            n == self@.len(),
            n <= 255,
    {
        proof {
            use_type_invariant(self);
        }
        self.inner.len() - 1
    }

    /// Return true if the path is empty
    pub fn is_empty(&self) -> (r: bool)
        ensures
            r == (self@.len() == 0),
    {
        self.len() == 0
    }
}

/// Tells whether every byte of `s` is ASCII.
pub fn is_ascii(s: &[u8]) -> (r: bool)
    ensures
        r == is_ascii_text(s@),
{
    let mut i: usize = 0;
    while i < s.len()
        invariant
            i <= s@.len(),
            forall|j: int| 0 <= j < i ==> s@[j] < 128,
        decreases s@.len() - i,
    {
        if s[i] >= 128 {
            return false;
        }
        i = i + 1;
    }
    true
}

impl PathBuf {
    pub const MAX_SIZE: usize = 255;

    pub const MAX_SIZE_PLUS_ONE: usize = 256;

    #[verifier::type_invariant]
    pub closed spec fn well_formed(self) -> bool {
        &&& 0 < self.len <= 256
        &&& self.buf@[self.len - 1] == 0
        &&& is_path_text(self.buf@.subrange(0, self.len - 1))
    }

    /// The empty path.
    pub fn new() -> (r: PathBuf)
        ensures
            r@ == Seq::<u8>::empty(),
    {
        let r = PathBuf { buf: [0u8; 256], len: 1 };
        assert(r@ =~= Seq::<u8>::empty());
        r
    }

    /// Makes the path empty.
    pub fn clear(&mut self)
        ensures
            final(self)@ == Seq::<u8>::empty(),
    {
        *self = PathBuf::new();
    }

    /// The path that the buffer holds, borrowed.
    pub fn as_path(&self) -> (r: Path<'_>)
        ensures
            r@ == self@,
            is_path_text(self@),
    {
        proof {
            use_type_invariant(self);
        }
        let inner = slice_subrange(self.buf.as_slice(), 0, self.len);
        assert(inner@.drop_last() == self.buf@.subrange(0, self.len - 1));
        Path { inner }
    }

    /// The number of bytes in the path, not counting the trailing null.
    pub fn len(&self) -> (n: usize)
        ensures
            n == self@.len(),
            n <= 255,
    {
        proof {
            use_type_invariant(self);
        }
        self.len - 1
    }
}


/// The text of `cur` extended with the path `p`.
///
/// Nothing is added for the empty path, and the root path replaces what was
/// there. Otherwise the two are put together, with a separator between them
/// unless `cur` is empty or ends in one.
pub open spec fn joined(cur: Seq<u8>, p: Seq<u8>) -> Seq<u8> {
    if p.len() == 0 {
        cur
    } else if p.len() == 1 && p[0] == SEPARATOR {
        p
    } else if cur.len() > 0 && cur.last() != SEPARATOR {
        cur.push(SEPARATOR) + p
    } else {
        cur + p
    }
}

/// The length of the C string at the start of `s`. The slice must hold a null byte.
pub fn strlen(s: &[u8]) -> (n: usize)
    requires
        first_index_of(s@, 0) < s@.len(),
    ensures
        n == first_index_of(s@, 0),
{
    match position(s, 0) {
        Some(n) => n,
        None => 0,
    }
}

impl PathBuf {
    /// The owned path with the given text.
    pub(crate) fn from_text(text: &[u8]) -> (r: PathBuf)
        requires
            is_path_text(text@),
        ensures
            r@ == text@,
    {
        let mut buf = [0u8; 256];
        let n = text.len();
        let mut i: usize = 0;
        while i < n
            invariant
                n == text@.len(),
                n <= 255,
                i <= n,
                forall|j: int| 0 <= j < i ==> buf@[j] == text@[j],
                forall|j: int| i <= j < 256 ==> buf@[j] == 0,
            decreases n - i,
        {
            buf[i] = text[i];
            i = i + 1;
        }
        assert(buf@.subrange(0, n as int) =~= text@);
        PathBuf { buf, len: n + 1 }
    }

    /// Creates a path from a raw buffer containing a null-terminated ASCII string.
    ///
    /// The buffer must contain only ASCII characters before its first null
    /// byte, and at least one null byte.
    pub fn from_buffer_unchecked(buf: [u8; 256]) -> (r: PathBuf)
        requires
            first_index_of(buf@, 0) < 256,
            is_ascii_text(buf@.subrange(0, first_index_of(buf@, 0))),
        ensures
            r@ == buf@.subrange(0, first_index_of(buf@, 0)),
    {
        proof {
            lemma_first_index_of_bounds(buf@, 0);
        }
        let len = strlen(buf.as_slice()) + 1;
        PathBuf { buf, len }
    }

    /// Extends `self` with `path`
    ///
    /// The root path replaces `self`, to match what `std::path` does. The
    /// result must fit: it may hold at most [`PathBuf::MAX_SIZE`] bytes.
    pub fn push(&mut self, path: &Path<'_>)
        requires
            joined(old(self)@, path@).len() <= 255,
        ensures
            final(self)@ == joined(old(self)@, path@),
            is_path_text(final(self)@),
    {
        proof {
            use_type_invariant(&*self);
        }
        let src = path.as_bytes();
        let slen = src.len();
        if slen == 0 {
            return ;
        }
        let mut buf = self.buf;
        if slen == 1 && src[0] == SEPARATOR {
            // `self` becomes `/` (root), to match `std::Path` implementation
            buf[0] = SEPARATOR;
            buf[1] = 0;
            assert(buf@.subrange(0, 1) =~= path@);
            *self = PathBuf { buf, len: 2 };
            return ;
        }
        let ghost cur = self@;
        let mut len = self.len;
        let needs_separator = len > 1 && buf[len - 2] != SEPARATOR;
        assert(needs_separator == (cur.len() > 0 && cur.last() != SEPARATOR));
        if needs_separator {
            buf[len - 1] = SEPARATOR;
            len = len + 1;
        }
        let ghost head = if needs_separator {
            cur.push(SEPARATOR)
        } else {
            cur
        };
        assert(buf@.subrange(0, len - 1) =~= head);
        let mut i: usize = 0;
        while i < slen
            invariant
                slen == src@.len(),
                len - 1 == head.len(),
                len + slen <= 256,
                i <= slen,
                buf@.subrange(0, len - 1) == head,
                forall|j: int| 0 <= j < i ==> buf@[len - 1 + j] == src@[j],
            decreases slen - i,
        {
            let ghost before = buf@;
            buf[len - 1 + i] = src[i];
            assert(buf@.subrange(0, len - 1) =~= before.subrange(0, len - 1));
            i = i + 1;
        }
        let ghost before = buf@;
        buf[len - 1 + slen] = 0;
        assert(buf@.subrange(0, len - 1) =~= before.subrange(0, len - 1));
        assert(buf@.subrange(0, len - 1 + slen) =~= head + src@);
        assert(is_path_text(head + src@)) by {
            assert forall|j: int| 0 <= j < (head + src@).len() implies (head + src@)[j] != 0 && (
            head + src@)[j] < 128 by {
                if j < cur.len() {
                    assert(cur[j] == self.buf@.subrange(0, self.len - 1)[j]);
                }
            }
        }
        *self = PathBuf { buf, len: len + slen };
    }

    /// Extends `self` with `path` where the result fits, and tells whether it did.
    pub fn try_push(&mut self, path: &Path<'_>) -> (r: Result<(), ()>)
        ensures
            r.is_ok() <==> joined(old(self)@, path@).len() <= 255,
            r.is_ok() ==> final(self)@ == joined(old(self)@, path@) && is_path_text(final(self)@),
            r.is_err() ==> final(self)@ == old(self)@,
    {
        let n = self.len();
        let m = path.len();
        let last_is_slash = n > 0 && self.as_path().as_bytes()[n - 1] == SEPARATOR;
        let first_is_root = m == 1 && path.as_bytes()[0] == SEPARATOR;
        let sep: usize = if m == 0 || first_is_root || n == 0 || last_is_slash {
            0
        } else {
            1
        };
        if m == 0 || first_is_root || n + sep + m <= 255 {
            self.push(path);
            Ok(())
        } else {
            Err(())
        }
    }
}

impl Default for PathBuf {
    fn default() -> (r: PathBuf)
        ensures
            r@ == Seq::<u8>::empty(),
    {
        PathBuf::new()
    }
}


impl<'a> TryFrom<&'a [u8]> for Path<'a> {
    type Error = PathError;

    /// Accepts byte strings with a trailing nul.
    fn try_from(bytes: &'a [u8]) -> (r: Result<Path<'a>, PathError>)
        ensures
            match r {
                Ok(p) => path_of_c_string(bytes@) == Ok::<Seq<u8>, PathError>(p@) && is_path_text(
                    p@,
                ),
                Err(e) => path_of_c_string(bytes@) == Err::<Seq<u8>, PathError>(e),
            },
    {
        Path::from_bytes_with_nul(bytes)
    }
}

impl<'a> vstd::std_specs::convert::TryFromSpecImpl<&'a [u8]> for Path<'a> {
    open spec fn obeys_try_from_spec() -> bool {
        false
    }

    open spec fn try_from_spec(v: &'a [u8]) -> Result<Self, Self::Error> {
        arbitrary()
    }
}

/// Accepts byte strings, with or without trailing nul.
impl TryFrom<&[u8]> for PathBuf {
    type Error = PathError;

    fn try_from(bytes: &[u8]) -> (r: Result<PathBuf, PathError>)
        ensures
            match r {
                Ok(p) => path_of_bytes(bytes@) == Ok::<Seq<u8>, PathError>(p@) && is_path_text(p@),
                Err(e) => path_of_bytes(bytes@) == Err::<Seq<u8>, PathError>(e),
            },
    {
        // NB: This needs to set the final NUL byte, unless it already has one
        // It also checks that there are no inner NUL bytes
        let n = bytes.len();
        let text = if n > 0 && bytes[n - 1] == 0 {
            slice_subrange(bytes, 0, n - 1)
        } else {
            bytes
        };
        assert(text@ =~= without_trailing_nul(bytes@));
        if text.len() > PathBuf::MAX_SIZE {
            return Err(PathError::TooLarge);
        }
        let mut i: usize = 0;
        while i < text.len()
            invariant
                text@ == without_trailing_nul(bytes@),
                text@.len() <= 255,
                i <= text@.len(),
                forall|j: int| 0 <= j < i ==> text@[j] != 0 && text@[j] < 128,
            decreases text@.len() - i,
        {
            if text[i] == 0 {
                proof {
                    lemma_first_bad_byte(text@, i as int);
                }
                return Err(PathError::NotCStr);
            }
            if text[i] >= 128 {
                proof {
                    lemma_first_bad_byte(text@, i as int);
                }
                return Err(PathError::NotAscii);
            }
            i = i + 1;
        }
        proof {
            lemma_first_bad_byte(text@, i as int);
        }
        Ok(PathBuf::from_text(text))
    }
}

impl vstd::std_specs::convert::TryFromSpecImpl<&[u8]> for PathBuf {
    open spec fn obeys_try_from_spec() -> bool {
        false
    }

    open spec fn try_from_spec(v: &[u8]) -> Result<Self, Self::Error> {
        arbitrary()
    }
}

/// Accepts strings, with or without trailing nul.
impl TryFrom<&str> for PathBuf {
    type Error = PathError;

    fn try_from(s: &str) -> (r: Result<PathBuf, PathError>)
        ensures
            match r {
                Ok(p) => path_of_bytes(s.spec_bytes()) == Ok::<Seq<u8>, PathError>(p@)
                    && is_path_text(p@),
                Err(e) => path_of_bytes(s.spec_bytes()) == Err::<Seq<u8>, PathError>(e),
            },
    {
        PathBuf::try_from(s.as_bytes())
    }
}

impl vstd::std_specs::convert::TryFromSpecImpl<&str> for PathBuf {
    open spec fn obeys_try_from_spec() -> bool {
        false
    }

    open spec fn try_from_spec(v: &str) -> Result<Self, Self::Error> {
        arbitrary()
    }
}

impl<'a> From<Path<'a>> for PathBuf {
    fn from(path: Path<'a>) -> (r: PathBuf)
        ensures
            r@ == path@,
    {
        PathBuf::from_text(path.as_bytes())
    }
}

impl<'a> vstd::std_specs::convert::FromSpecImpl<Path<'a>> for PathBuf {
    open spec fn obeys_from_spec() -> bool {
        false
    }

    open spec fn from_spec(v: Path<'a>) -> Self {
        arbitrary()
    }
}

impl<'a> PartialEq for Path<'a> {
    fn eq(&self, other: &Path<'a>) -> (r: bool) {
        bytes_eq(self.as_bytes(), other.as_bytes())
    }
}

impl<'a> vstd::std_specs::cmp::PartialEqSpecImpl for Path<'a> {
    open spec fn obeys_eq_spec() -> bool {
        true
    }

    open spec fn eq_spec(&self, other: &Path<'a>) -> bool {
        self@ == other@
    }
}

impl<'a> Eq for Path<'a> {

}

impl PartialEq for PathBuf {
    fn eq(&self, other: &PathBuf) -> (r: bool) {
        bytes_eq(self.as_path().as_bytes(), other.as_path().as_bytes())
    }
}

impl vstd::std_specs::cmp::PartialEqSpecImpl for PathBuf {
    open spec fn obeys_eq_spec() -> bool {
        true
    }

    open spec fn eq_spec(&self, other: &PathBuf) -> bool {
        self@ == other@
    }
}

impl Eq for PathBuf {

}


/// The order of two paths as strings: byte by byte, a proper prefix first.
pub open spec fn str_order(a: Seq<u8>, b: Seq<u8>) -> Ordering {
    let k = mismatch(a, b);
    if k < a.len() && k < b.len() {
        if a[k] < b[k] {
            Ordering::Less
        } else {
            Ordering::Greater
        }
    } else if a.len() < b.len() {
        Ordering::Less
    } else if a.len() == b.len() {
        Ordering::Equal
    } else {
        Ordering::Greater
    }
}

/// The order in which a directory yields its entries: byte by byte, but of
/// two names of which one is a proper prefix of the other the longer comes first.
pub open spec fn lfs_order(a: Seq<u8>, b: Seq<u8>) -> Ordering {
    let k = mismatch(a, b);
    if k < a.len() && k < b.len() {
        if a[k] < b[k] {
            Ordering::Less
        } else {
            Ordering::Greater
        }
    } else if b.len() < a.len() {
        Ordering::Less
    } else if a.len() == b.len() {
        Ordering::Equal
    } else {
        Ordering::Greater
    }
}

/// The last component of the path `s`: what follows its last separator, or
/// all of it where it holds none. There is none where `s` is empty or ends
/// in a separator.
pub open spec fn file_name_of(s: Seq<u8>) -> Option<Seq<u8>> {
    let i = last_index_of(s, SEPARATOR);
    if s.len() == 0 || i == s.len() - 1 {
        None
    } else {
        Some(s.skip(i + 1))
    }
}

/// The path `s` without its last component and the separator before it.
///
/// A path without a separator has no parent, and neither has the root. The
/// parent of a path directly under the root is the root. A separator at the
/// end is dropped before the parent is taken.
pub open spec fn parent_of(s: Seq<u8>) -> Option<Seq<u8>>
    decreases s.len(),
{
    let i = last_index_of(s, SEPARATOR);
    if i < 0 || i >= s.len() {
        None
    } else if i == 0 && s.len() != 1 {
        Some(seq![SEPARATOR])
    } else if i + 1 == s.len() {
        parent_of(s.take(i))
    } else {
        Some(s.take(i))
    }
}

/// Whether the path `s` starts at the root.
pub open spec fn has_root_text(s: Seq<u8>) -> bool {
    s.len() > 0 && s[0] == SEPARATOR
}

/// A part of a path's text is a path's text.
pub proof fn lemma_subrange_is_path_text(s: Seq<u8>, i: int, j: int)
    requires
        is_path_text(s),
        0 <= i <= j <= s.len(),
    ensures
        is_path_text(s.subrange(i, j)),
{
    assert forall|k: int| 0 <= k < s.subrange(i, j).len() implies s.subrange(i, j)[k] != 0
        && s.subrange(i, j)[k] < 128 by {
        assert(s.subrange(i, j)[k] == s[i + k]);
    }
}

impl<'a> Path<'a> {
    /// Compare the path using their string representation
    /// This comparison function as would be expected for a `String` type.
    ///
    /// This ordering does not match the ordering observed when iterating over a directory:
    /// see [`Path::cmp_lfs`].
    pub fn cmp_str(&self, other: &Path<'_>) -> (r: Ordering)
        ensures
            r == str_order(self@, other@),
    {
        let this = self.as_bytes();
        let that = other.as_bytes();
        let k = common_prefix_len(this, that);
        if k < this.len() && k < that.len() {
            if this[k] < that[k] {
                Ordering::Less
            } else {
                Ordering::Greater
            }
        } else if this.len() < that.len() {
            Ordering::Less
        } else if this.len() == that.len() {
            Ordering::Equal
        } else {
            Ordering::Greater
        }
    }

    /// Compare the path using their string representation
    ///
    /// This comparison function matches the iteration order of the
    /// filesystem when iterating over a directory.
    pub fn cmp_lfs(&self, other: &Path<'_>) -> (r: Ordering)
        ensures
            r == lfs_order(self@, other@),
    {
        let this = self.as_bytes();
        let that = other.as_bytes();
        let k = common_prefix_len(this, that);
        if k < this.len() && k < that.len() {
            // if they have a clear ordering, return this ordering
            if this[k] < that[k] {
                Ordering::Less
            } else {
                Ordering::Greater
            }
        } else if that.len() < this.len() {
            // If one is a prefix of the other, the longest one is the first
            Ordering::Less
        } else if this.len() == that.len() {
            Ordering::Equal
        } else {
            Ordering::Greater
        }
    }
}

impl<'a> Path<'a> {
    /// Get the name of the file this path points to if it points to one
    ///
    /// This is the last component of the path. A path that is empty or ends
    /// in a separator has none.
    pub fn file_name(&self) -> (r: Option<Path<'a>>)
        ensures
            match r {
                Some(name) => file_name_of(self@) == Some(name@),
                None => file_name_of(self@).is_none(),
            },
    {
        proof {
            use_type_invariant(self);
        }
        let text = self.as_bytes();
        let n = text.len();
        if n == 0 {
            return None;
        }
        let start: usize = match rposition(text, SEPARATOR) {
            Some(i) => i + 1,
            None => 0,
        };
        if start == n {
            return None;
        }
        let inner = slice_subrange(self.inner, start, n + 1);
        proof {
            assert(inner@.drop_last() =~= self@.skip(start as int));
            assert(self@.skip(start as int) == self@.subrange(start as int, n as int));
            lemma_subrange_is_path_text(self@, start as int, n as int);
        }
        Some(Path { inner })
    }

    /// The path without its last component, if it has one to go up from.
    pub fn parent(&self) -> (r: Option<PathBuf>)
        ensures
            match r {
                Some(p) => parent_of(self@) == Some(p@),
                None => parent_of(self@).is_none(),
            },
    {
        let mut text = self.as_bytes();
        loop
            invariant
                is_path_text(text@),
                parent_of(text@) == parent_of(self@),
            decreases text@.len(),
        {
            proof {
                lemma_last_index_of_bounds(text@, SEPARATOR);
            }
            match rposition(text, SEPARATOR) {
                None => {
                    return None;
                },
                Some(slash_index) => {
                    if slash_index == 0 && text.len() != 1 {
                        let root = slice_subrange(text, 0, 1);
                        proof {
                            lemma_subrange_is_path_text(text@, 0, 1);
                            assert(root@ =~= seq![SEPARATOR]);
                        }
                        return Some(PathBuf::from_text(root));
                    }
                    let head = slice_subrange(text, 0, slash_index);
                    proof {
                        lemma_subrange_is_path_text(text@, 0, slash_index as int);
                        assert(head@ == text@.take(slash_index as int));
                    }
                    // if we have a directory that ends with `/`,
                    // still need to "go up" one parent
                    if slash_index + 1 == text.len() {
                        text = head;
                    } else {
                        return Some(PathBuf::from_text(head));
                    }
                },
            }
        }
    }

    /// Creates an owned `PathBuf` with `path` adjoined to `self`.
    ///
    /// The result must fit: it may hold at most [`PathBuf::MAX_SIZE`] bytes.
    pub fn join(&self, path: &Path<'_>) -> (r: PathBuf)
        requires
            joined(self@, path@).len() <= 255,
        ensures
            r@ == joined(self@, path@),
            is_path_text(r@),
    {
        let mut p = PathBuf::from(*self);
        p.push(path);
        p
    }

    /// Creates an owned `PathBuf` with `path` adjoined to `self`, where the result fits.
    pub fn try_join(&self, path: &Path<'_>) -> (r: Result<PathBuf, ()>)
        ensures
            r.is_ok() <==> joined(self@, path@).len() <= 255,
            r matches Ok(p) ==> p@ == joined(self@, path@) && is_path_text(p@),
    {
        let mut p = PathBuf::from(*self);
        match p.try_push(path) {
            Ok(()) => Ok(p),
            Err(()) => Err(()),
        }
    }

    /// Whether the path starts at the root.
    pub fn has_root(&self) -> (r: bool)
        ensures
            r == has_root_text(self@),
    {
        let text = self.as_bytes();
        text.len() > 0 && text[0] == SEPARATOR
    }

    /// Whether the path starts at the root.
    pub fn is_absolute(&self) -> (r: bool)
        ensures
            r == has_root_text(self@),
    {
        self.has_root()
    }

    /// Whether the path does not start at the root.
    pub fn is_relative(&self) -> (r: bool)
        ensures
            r == !has_root_text(self@),
    {
        !self.is_absolute()
    }
}


/// What is left to visit after the ancestor `s` itself: the text before its
/// last separator, or the root where that separator stands first. Nothing is
/// left after the root or after a path without a separator. Where `s` ends in
/// a separator, the path before it is passed over.
pub open spec fn ancestors_rest(s: Seq<u8>) -> Seq<u8>
    decreases s.len(),
{
    let i = last_index_of(s, SEPARATOR);
    if i < 0 || i >= s.len() || s.len() == 1 {
        Seq::<u8>::empty()
    } else {
        let up = if i == 0 {
            seq![SEPARATOR]
        } else {
            s.take(i)
        };
        if i == s.len() - 1 {
            ancestors_rest(up)
        } else {
            up
        }
    }
}

/// The first component of `s`: the root where `s` starts with a separator,
/// else the text before its first separator.
pub open spec fn first_component(s: Seq<u8>) -> Seq<u8> {
    if has_root_text(s) {
        seq![SEPARATOR]
    } else {
        s.take(first_index_of(s, SEPARATOR))
    }
}

/// What follows the first component of `s`: after the root the rest of `s`,
/// else what stands behind the first separator.
pub open spec fn after_first_component(s: Seq<u8>) -> Seq<u8> {
    if has_root_text(s) {
        s.skip(1)
    } else if first_index_of(s, SEPARATOR) < s.len() {
        s.skip(first_index_of(s, SEPARATOR) + 1)
    } else {
        Seq::<u8>::empty()
    }
}

/// Iterator over the ancestors of a Path
///
/// See documentation for [`Path::ancestors`]
#[derive(Clone, Copy, Debug)]
pub struct Ancestors<'a> {
    path: &'a [u8],
}

impl<'a> View for Ancestors<'a> {
    type V = Seq<u8>;

    /// The ancestor that comes next, or the empty text after the last one.
    closed spec fn view(&self) -> Seq<u8> {
        self.path@
    }
}

/// Iterator over the components of a Path
///
/// See documentation for [`Path::iter`]
#[derive(Clone, Copy, Debug)]
pub struct Iter<'a> {
    path: &'a [u8],
}

impl<'a> View for Iter<'a> {
    type V = Seq<u8>;

    /// The text whose components are still to come.
    closed spec fn view(&self) -> Seq<u8> {
        self.path@
    }
}

impl<'a> Ancestors<'a> {
    #[verifier::type_invariant]
    pub closed spec fn well_formed(self) -> bool {
        is_path_text(self.path@)
    }

    /// The next ancestor: first the path itself, then what is above it, up
    /// to the root or to the first component.
    pub fn next(&mut self) -> (r: Option<PathBuf>)
        ensures
            old(self)@.len() == 0 ==> r.is_none() && final(self)@ == old(self)@,
            old(self)@.len() > 0 ==> r.is_some() && r.unwrap()@ == old(self)@ && final(self)@
                == ancestors_rest(old(self)@),
            final(self)@.len() <= old(self)@.len(),
            old(self)@.len() > 0 ==> final(self)@.len() < old(self)@.len(),
    {
        proof {
            use_type_invariant(&*self);
        }
        let item = self.path;
        if item.len() == 0 {
            return None;
        }
        let mut text = item;
        let mut rest = slice_subrange(item, 0, 0);
        loop
            invariant_except_break
                is_path_text(text@),
                0 < text@.len() <= item@.len(),
                ancestors_rest(text@) == ancestors_rest(item@),
            ensures
                is_path_text(rest@),
                rest@ == ancestors_rest(item@),
                rest@.len() < item@.len(),
            decreases text@.len(),
        {
            proof {
                lemma_last_index_of_bounds(text@, SEPARATOR);
            }
            match rposition(text, SEPARATOR) {
                None => {
                    rest = slice_subrange(text, 0, 0);
                    assert(rest@ =~= Seq::<u8>::empty());
                    break ;
                },
                Some(i) => {
                    if text.len() == 1 {
                        rest = slice_subrange(text, 0, 0);
                        assert(rest@ =~= Seq::<u8>::empty());
                        break ;
                    }
                    let up = if i == 0 {
                        slice_subrange(text, 0, 1)
                    } else {
                        slice_subrange(text, 0, i)
                    };
                    proof {
                        if i == 0 {
                            lemma_subrange_is_path_text(text@, 0, 1);
                            assert(up@ =~= seq![SEPARATOR]);
                        } else {
                            lemma_subrange_is_path_text(text@, 0, i as int);
                            assert(up@ == text@.take(i as int));
                        }
                    }
                    if i + 1 == text.len() {
                        // Case of a path ending with a trailing `/`
                        text = up;
                    } else {
                        rest = up;
                        break ;
                    }
                },
            }
        }
        self.path = rest;
        Some(PathBuf::from_text(item))
    }
}

impl<'a> Iter<'a> {
    #[verifier::type_invariant]
    pub closed spec fn well_formed(self) -> bool {
        is_path_text(self.path@)
    }

    /// The next component: the root first, where the path starts there, then
    /// each text between separators.
    pub fn next(&mut self) -> (r: Option<PathBuf>)
        ensures
            old(self)@.len() == 0 ==> r.is_none() && final(self)@ == old(self)@,
            old(self)@.len() > 0 ==> r.is_some() && r.unwrap()@ == first_component(old(self)@)
                && final(self)@ == after_first_component(old(self)@),
            old(self)@.len() > 0 ==> final(self)@.len() < old(self)@.len(),
    {
        proof {
            use_type_invariant(&*self);
        }
        let text = self.path;
        let n = text.len();
        if n == 0 {
            return None;
        }
        if text[0] == SEPARATOR {
            let root = slice_subrange(text, 0, 1);
            let rest = slice_subrange(text, 1, n);
            proof {
                lemma_subrange_is_path_text(text@, 0, 1);
                lemma_subrange_is_path_text(text@, 1, n as int);
                assert(root@ =~= seq![SEPARATOR]);
                assert(rest@ == text@.skip(1));
            }
            self.path = rest;
            return Some(PathBuf::from_text(root));
        }
        proof {
            lemma_first_index_of_bounds(text@, SEPARATOR);
        }
        match position(text, SEPARATOR) {
            None => {
                let rest = slice_subrange(text, 0, 0);
                proof {
                    assert(text@.take(n as int) =~= text@);
                    assert(rest@ =~= Seq::<u8>::empty());
                }
                self.path = rest;
                Some(PathBuf::from_text(text))
            },
            Some(i) => {
                let head = slice_subrange(text, 0, i);
                let rest = slice_subrange(text, i + 1, n);
                proof {
                    lemma_subrange_is_path_text(text@, 0, i as int);
                    lemma_subrange_is_path_text(text@, i + 1, n as int);
                    assert(head@ == text@.take(i as int));
                    assert(rest@ == text@.skip(i + 1));
                }
                self.path = rest;
                Some(PathBuf::from_text(head))
            },
        }
    }
}

impl<'a> Path<'a> {
    /// Iterate over the ancestors of the path
    ///
    /// The path itself comes first, the root or the first component last.
    pub fn ancestors(&self) -> (r: Ancestors<'a>)
        ensures
            r@ == self@,
    {
        Ancestors { path: self.as_bytes() }
    }

    /// Iterate over the components of the path
    pub fn iter(&self) -> (r: Iter<'a>)
        ensures
            r@ == self@,
    {
        Iter { path: self.as_bytes() }
    }
}


/// Reads ASCII bytes as a string, by `core::str::from_utf8`.
///
/// ASCII text is valid UTF-8, so the conversion succeeds, and the string it
/// gives is made of the bytes it was given.
#[verifier::external_body]
fn str_from_ascii<'a>(bytes: &'a [u8]) -> (s: &'a str)
    requires
        is_ascii_text(bytes@),
    ensures
        s.spec_bytes() == bytes@,
{
    match core::str::from_utf8(bytes) {
        Ok(s) => s,
        Err(_) => "",
    }
}

impl<'a> Path<'a> {
    /// The path as a string.
    pub fn as_str(&self) -> (s: &'a str)
        ensures
            s.spec_bytes() == self@,
    {
        str_from_ascii(self.as_bytes())
    }

    /// The path as a string that ends in the null byte.
    // helpful for debugging whether the trailing nul is indeed a trailing nul.
    pub fn as_str_ref_with_trailing_nul(&self) -> (s: &'a str)
        ensures
            s.spec_bytes() == self@.push(0),
    {
        str_from_ascii(self.as_bytes_with_nul())
    }
}

/// Comparing a path with itself gives `Equal` in both orders.
pub proof fn lemma_orders_reflexive(a: Seq<u8>)
    ensures
        str_order(a, a) == Ordering::Equal,
        lfs_order(a, a) == Ordering::Equal,
{
    lemma_mismatch_bounds(a, a);
}

/// Two paths compare `Equal`, in either order, exactly when they are the same.
pub proof fn lemma_orders_equal_iff_same(a: Seq<u8>, b: Seq<u8>)
    ensures
        str_order(a, b) == Ordering::Equal <==> a == b,
        lfs_order(a, b) == Ordering::Equal <==> a == b,
{
    lemma_mismatch_bounds(a, b);
    if a.len() == b.len() && mismatch(a, b) == a.len() {
        assert(a =~= b);
    }
}

/// Swapping the arguments reverses the result, in both orders.
pub proof fn lemma_orders_antisymmetric(a: Seq<u8>, b: Seq<u8>)
    ensures
        str_order(a, b) == Ordering::Less <==> str_order(b, a) == Ordering::Greater,
        lfs_order(a, b) == Ordering::Less <==> lfs_order(b, a) == Ordering::Greater,
{
    lemma_mismatch_bounds(a, b);
    lemma_mismatch_symmetric(a, b);
}

/// Where two paths differ at some byte that both hold, the two orders agree.
pub proof fn lemma_orders_agree_on_mismatch(a: Seq<u8>, b: Seq<u8>)
    requires
        mismatch(a, b) < a.len(),
        mismatch(a, b) < b.len(),
    ensures
        lfs_order(a, b) == str_order(a, b),
{
}

/// Of two paths of which one is a proper prefix of the other, the shorter
/// comes first as a string, and the longer comes first in a directory.
pub proof fn lemma_orders_on_prefix(a: Seq<u8>, b: Seq<u8>)
    requires
        is_proper_prefix(a, b),
    ensures
        str_order(a, b) == Ordering::Less,
        lfs_order(a, b) == Ordering::Greater,
        str_order(b, a) == Ordering::Greater,
        lfs_order(b, a) == Ordering::Less,
{
    lemma_mismatch_of_prefix(a, b);
}

/// A buffer is turned into an owned path exactly when what it holds, apart
/// from one null byte at its end, may stand in a path: text with a null byte
/// inside, with a byte that is not ASCII or of more than 255 bytes is refused.
pub proof fn lemma_path_of_bytes_accepts(s: Seq<u8>)
    ensures
        path_of_bytes(s).is_ok() <==> is_path_text(without_trailing_nul(s)),
        path_of_bytes(s) matches Ok(t) ==> t == without_trailing_nul(s),
        without_trailing_nul(s).len() > 255 ==> path_of_bytes(s) == Err::<Seq<u8>, PathError>(
            PathError::TooLarge,
        ),
{
    let t = without_trailing_nul(s);
    lemma_first_bad_byte_bounds(t);
}

/// A null-terminated buffer is taken as a path exactly when it is a C string
/// whose text may stand in a path.
pub proof fn lemma_path_of_c_string_accepts(s: Seq<u8>)
    ensures
        path_of_c_string(s).is_ok() <==> is_c_string(s) && is_path_text(s.drop_last()),
        path_of_c_string(s) matches Ok(t) ==> t == s.drop_last(),
{
}

/// What `first_bad_byte` returns lies within the sequence; the bytes before
/// it may stand in a path, and the one at it may not.
pub proof fn lemma_first_bad_byte_bounds(s: Seq<u8>)
    ensures
        0 <= first_bad_byte(s) <= s.len(),
        forall|j: int| 0 <= j < first_bad_byte(s) ==> s[j] != 0 && s[j] < 128,
        first_bad_byte(s) < s.len() ==> s[first_bad_byte(s)] == 0 || s[first_bad_byte(s)] >= 128,
    decreases s.len(),
{
    if s.len() != 0 && !(s[0] == 0 || s[0] >= 128) {
        let t = s.skip(1);
        lemma_first_bad_byte_bounds(t);
        assert forall|j: int| 0 <= j < first_bad_byte(s) implies s[j] != 0 && s[j] < 128 by {
            if j > 0 {
                assert(t[j - 1] == s[j]);
            }
        }
    }
}


/// Why bytes that were handed over in a serialized form are no path.
#[derive(Clone, Copy, Debug, PartialEq, Eq, Structural)]
pub enum SerializedPathError {
    /// There are more bytes than a path can hold: so many.
    InvalidLength(usize),
    /// The bytes are not the text of a path.
    InvalidPath,
}

/// What reading a path from its serialized form gives. More than 255 bytes
/// are refused for their number, a null byte at the end counted.
pub open spec fn path_of_serialized(s: Seq<u8>) -> Result<Seq<u8>, SerializedPathError> {
    if s.len() > 255 {
        Err(SerializedPathError::InvalidLength(s.len() as usize))
    } else {
        match path_of_bytes(s) {
            Ok(t) => Ok(t),
            Err(_) => Err(SerializedPathError::InvalidPath),
        }
    }
}

impl PathBuf {
    /// The bytes by which the path is serialized: its text.
    pub fn to_serialized(&self) -> (r: &[u8])
        ensures
            r@ == self@,
    {
        self.as_path().as_bytes()
    }

    /// Reads a path from the bytes by which one was serialized.
    pub fn from_serialized(v: &[u8]) -> (r: Result<PathBuf, SerializedPathError>)
        ensures
            match r {
                Ok(p) => path_of_serialized(v@) == Ok::<Seq<u8>, SerializedPathError>(p@),
                Err(e) => path_of_serialized(v@) == Err::<Seq<u8>, SerializedPathError>(e),
            },
    {
        if v.len() > PathBuf::MAX_SIZE {
            return Err(SerializedPathError::InvalidLength(v.len()));
        }
        match PathBuf::try_from(v) {
            Ok(p) => Ok(p),
            Err(_) => Err(SerializedPathError::InvalidPath),
        }
    }

    /// The path as an owned string.
    pub fn to_string(&self) -> (r: String)
        ensures
            vstd::utf8::encode_utf8(r@) == self@,
    {
        self.as_path().to_string()
    }
}

impl<'a> Path<'a> {
    /// The path as an owned string.
    pub fn to_string(&self) -> (r: String)
        ensures
            vstd::utf8::encode_utf8(r@) == self@,
    {
        self.as_str().to_owned()
    }
}

/// What is serialized of a path is read back as the same path.
pub proof fn lemma_serialized_round_trip(s: Seq<u8>)
    requires
        is_path_text(s),
    ensures
        path_of_serialized(s) == Ok::<Seq<u8>, SerializedPathError>(s),
        path_of_bytes(s) == Ok::<Seq<u8>, PathError>(s),
{
    if s.len() > 0 {
        assert(s.last() == s[s.len() - 1]);
    }
    lemma_first_bad_byte(s, s.len() as int);
}


/// After a path its ancestors come as its parents do: what follows the path
/// among its ancestors is its parent, and nothing follows a path without one.
pub proof fn lemma_ancestors_follow_parents(s: Seq<u8>)
    requires
        s.len() > 0,
    ensures
        ancestors_rest(s) == match parent_of(s) {
            Some(p) => p,
            None => Seq::<u8>::empty(),
        },
    decreases s.len(),
{
    let i = last_index_of(s, SEPARATOR);
    lemma_last_index_of_bounds(s, SEPARATOR);
    if 0 < i && i + 1 == s.len() {
        lemma_ancestors_follow_parents(s.take(i));
    } else if i == 0 && s.len() == 1 {
        assert(s.take(0) =~= Seq::<u8>::empty());
        assert(last_index_of(Seq::<u8>::empty(), SEPARATOR) == -1);
        assert(parent_of(Seq::<u8>::empty()).is_none());
    }
}

/// The parent of a path is shorter than the path.
pub proof fn lemma_parent_is_shorter(s: Seq<u8>)
    ensures
        parent_of(s) matches Some(p) ==> p.len() < s.len(),
    decreases s.len(),
{
    let i = last_index_of(s, SEPARATOR);
    lemma_last_index_of_bounds(s, SEPARATOR);
    if 0 <= i && i + 1 == s.len() && !(i == 0 && s.len() != 1) {
        lemma_parent_is_shorter(s.take(i));
    }
}

/// An entry is found again in its path: the file name of the path of a
/// directory extended by a name is that name, where the name is not empty
/// and holds no separator.
pub proof fn lemma_file_name_of_joined(dir: Seq<u8>, name: Seq<u8>)
    requires
        name.len() > 0,
        forall|i: int| 0 <= i < name.len() ==> name[i] != SEPARATOR,
    ensures
        file_name_of(joined(dir, name)) == Some(name),
{
    let full = joined(dir, name);
    let start = full.len() - name.len();
    assert forall|j: int| start <= j < full.len() implies full[j] != SEPARATOR by {
        assert(full[j] == name[j - start]);
    }
    if start > 0 {
        assert(full[start - 1] == SEPARATOR) by {
            if dir.len() > 0 && dir.last() != SEPARATOR {
                assert(full[start - 1] == dir.push(SEPARATOR)[start - 1]);
            } else {
                assert(full[start - 1] == dir[start - 1]);
            }
        }
    }
    crate::bytes::lemma_last_index_of(full, SEPARATOR, start - 1);
    assert(full.skip(start) =~= name);
}

/// Extending a path by the empty path changes nothing, and extending the
/// empty path gives the path that it is extended by.
pub proof fn lemma_joined_with_empty(p: Seq<u8>)
    ensures
        joined(p, Seq::<u8>::empty()) == p,
        joined(Seq::<u8>::empty(), p) == p,
{
    assert(Seq::<u8>::empty() + p =~= p);
}


/// The error of the filesystem that stands for a reason why bytes are no
/// path: a path that is too long has a name that is too long, and bytes
/// that a path cannot hold are an invalid value.
pub open spec fn error_of_path_error(e: PathError) -> crate::io::Error {
    match e {
        PathError::TooLarge => crate::io::Error::filename_too_long(),
        PathError::NotAscii => crate::io::Error::invalid(),
        PathError::NotCStr => crate::io::Error::invalid(),
    }
}

impl From<PathError> for crate::io::Error {
    fn from(e: PathError) -> (r: crate::io::Error) {
        match e {
            PathError::TooLarge => crate::io::Error::filename_too_long(),
            PathError::NotAscii => crate::io::Error::invalid(),
            PathError::NotCStr => crate::io::Error::invalid(),
        }
    }
}

impl vstd::std_specs::convert::FromSpecImpl<PathError> for crate::io::Error {
    open spec fn obeys_from_spec() -> bool {
        true
    }

    open spec fn from_spec(e: PathError) -> crate::io::Error {
        error_of_path_error(e)
    }
}

impl PathBuf {
    /// The path that the bytes name, for an operation of the filesystem.
    ///
    /// The bytes are checked before the filesystem is asked anything: where
    /// they are no path, the operation fails with the error that
    /// [`error_of_path_error`] gives for the reason.
    pub fn for_operation(bytes: &[u8]) -> (r: crate::io::Result<PathBuf>)
        ensures
            match r {
                Ok(p) => path_of_bytes(bytes@) == Ok::<Seq<u8>, PathError>(p@) && is_path_text(p@),
                Err(e) => path_of_bytes(bytes@) is Err && e == error_of_path_error(
                    path_of_bytes(bytes@)->Err_0,
                ),
            },
    {
        match PathBuf::try_from(bytes) {
            Ok(p) => Ok(p),
            Err(e) => Err(crate::io::Error::from(e)),
        }
    }
}

/// Bytes that hold a null byte before their end, or a byte that is not
/// ASCII, or more than 255 bytes beside a null byte at their end, name no
/// path: an operation on them fails with the error for an invalid value or
/// with the one for a name that is too long.
pub proof fn lemma_bad_paths_are_rejected(s: Seq<u8>, i: int)
    requires
        ({
            let text = without_trailing_nul(s);
            ||| text.len() > 255
            ||| 0 <= i < text.len() && text[i] == 0
            ||| 0 <= i < text.len() && text[i] >= 128
        }),
    ensures
        path_of_bytes(s) is Err,
        error_of_path_error(path_of_bytes(s)->Err_0) == crate::io::Error::invalid()
            || error_of_path_error(path_of_bytes(s)->Err_0)
            == crate::io::Error::filename_too_long(),
        without_trailing_nul(s).len() > 255 <==> error_of_path_error(path_of_bytes(s)->Err_0)
            == crate::io::Error::filename_too_long(),
{
    let text = without_trailing_nul(s);
    lemma_first_bad_byte_bounds(text);
    crate::io::lemma_error_codes();
}


/// What is left to visit after an ancestor is a shorter start of it.
pub proof fn lemma_ancestors_rest_is_prefix(s: Seq<u8>)
    ensures
        s.len() > 0 ==> ancestors_rest(s).len() < s.len(),
        ancestors_rest(s).len() <= s.len(),
        ancestors_rest(s) == s.take(ancestors_rest(s).len() as int),
    decreases s.len(),
{
    let i = last_index_of(s, SEPARATOR);
    lemma_last_index_of_bounds(s, SEPARATOR);
    if i < 0 || i >= s.len() || s.len() == 1 {
        assert(s.take(0) =~= Seq::<u8>::empty());
    } else {
        let up = if i == 0 {
            seq![SEPARATOR]
        } else {
            s.take(i)
        };
        assert(up =~= s.take(up.len() as int));
        if i == s.len() - 1 {
            lemma_ancestors_rest_is_prefix(up);
            let r = ancestors_rest(up);
            assert(s.take(up.len() as int).take(r.len() as int) =~= s.take(r.len() as int));
        }
    }
}

/// The ancestors of the path `s`, the path itself first.
pub open spec fn ancestors_of(s: Seq<u8>) -> Seq<Seq<u8>>
    decreases s.len(),
{
    if s.len() == 0 || ancestors_rest(s).len() >= s.len() {
        Seq::empty()
    } else {
        seq![s] + ancestors_of(ancestors_rest(s))
    }
}

/// Every ancestor of a path is a start of the path, and none is empty.
pub proof fn lemma_ancestors_are_prefixes(s: Seq<u8>, k: int)
    requires
        0 <= k < ancestors_of(s).len(),
    ensures
        0 < ancestors_of(s)[k].len() <= s.len(),
        ancestors_of(s)[k] == s.take(ancestors_of(s)[k].len() as int),
    decreases s.len(),
{
    lemma_ancestors_rest_is_prefix(s);
    if k == 0 {
        assert(s.take(s.len() as int) =~= s);
    } else {
        let r = ancestors_rest(s);
        lemma_ancestors_are_prefixes(r, k - 1);
        let a = ancestors_of(r)[k - 1];
        assert(s.take(r.len() as int).take(a.len() as int) =~= s.take(a.len() as int));
    }
}

/// What follows the first component of a path is shorter than the path.
pub proof fn lemma_after_first_component_is_shorter(s: Seq<u8>)
    requires
        s.len() > 0,
    ensures
        after_first_component(s).len() < s.len(),
{
    lemma_first_index_of_bounds(s, SEPARATOR);
}

/// The components of the path `s` in order: the root where the path starts
/// with a separator, and the texts between separators.
pub open spec fn components(s: Seq<u8>) -> Seq<Seq<u8>>
    decreases s.len(),
{
    if s.len() == 0 || after_first_component(s).len() >= s.len() {
        Seq::empty()
    } else {
        seq![first_component(s)] + components(after_first_component(s))
    }
}

/// A component of a path is the root or holds no separator.
pub proof fn lemma_components_hold_no_separator(s: Seq<u8>, k: int)
    requires
        0 <= k < components(s).len(),
    ensures
        components(s)[k] == seq![SEPARATOR] || forall|i: int|
            0 <= i < components(s)[k].len() ==> components(s)[k][i] != SEPARATOR,
    decreases s.len(),
{
    lemma_after_first_component_is_shorter(s);
    if k == 0 {
        if !has_root_text(s) {
            lemma_first_index_of_bounds(s, SEPARATOR);
        }
    } else {
        lemma_components_hold_no_separator(after_first_component(s), k - 1);
    }
}


/// The ancestors of a path are the path and then the ancestors of what is
/// left to visit after it: `Ancestors` yields them one by one.
pub proof fn lemma_ancestors_step(s: Seq<u8>)
    requires
        s.len() > 0,
    ensures
        ancestors_of(s) == seq![s] + ancestors_of(ancestors_rest(s)),
        ancestors_of(Seq::<u8>::empty()) == Seq::<Seq<u8>>::empty(),
{
    lemma_ancestors_rest_is_prefix(s);
}

/// The components of a path are its first component and then the
/// components of what follows it: `Iter` yields them one by one.
pub proof fn lemma_components_step(s: Seq<u8>)
    requires
        s.len() > 0,
    ensures
        components(s) == seq![first_component(s)] + components(after_first_component(s)),
        components(Seq::<u8>::empty()) == Seq::<Seq<u8>>::empty(),
{
    lemma_after_first_component_is_shorter(s);
}

} // verus!
