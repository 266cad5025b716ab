//! An idiomatic interface to a power-loss-resilient filesystem for small flash devices.
//!
//! The crate holds the parts of the interface that can be reasoned about on
//! plain values: paths, error codes, open flags, directory entries, the
//! geometry that a storage driver declares, and the decisions that the
//! filesystem takes around the calls into its backend.

pub mod attribute;
pub mod backend;
pub mod bytes;
pub mod consts;
pub mod create;
pub mod driver;
pub mod eio;
pub mod error;
pub mod filename;
pub mod fs;
pub mod io;
pub mod mount;
pub mod object_safe;
pub mod path;
pub mod ram;
pub mod remove;

pub use backend::{version, Version, BACKEND_VERSION, DISK_VERSION};
pub use fs::{Attribute, DirEntry, FileOpenFlags, FileType, Metadata, OpenOptions};
pub use io::{Error, OpenSeekFrom, Read, Result, Seek, SeekFrom, Write};
pub use mount::{Allocation, Config, MountFlags};
pub use object_safe::{Bytes, DynFile, Vec};
pub use path::{Ancestors, Iter, Path, PathBuf, PathError};
