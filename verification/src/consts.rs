//! The limits that the backend was built with.

use vstd::prelude::*;

verus! {

/// The largest number of bytes in a path, not counting the trailing null.
pub const PATH_MAX: usize = 255;

/// The number of bytes that a buffer for a path takes.
pub const PATH_MAX_PLUS_ONE: usize = 256;

/// The number of bytes that a buffer for a file name takes.
pub const FILENAME_MAX_PLUS_ONE: u32 = 256;

/// The largest number of bytes in a file.
pub const FILEBYTES_MAX: u32 = 2_147_483_647;

/// The largest number of bytes in an attribute.
pub const ATTRBYTES_MAX: u32 = 1_022;

/// The number of 32-bit words in the default lookahead buffer.
pub const LOOKAHEADWORDS_SIZE: u32 = 16;

} // verus!
