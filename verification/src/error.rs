//! The errors of the filesystem by name, and the result of mounting.

use vstd::prelude::*;

verus! {

pub type Result<T> = core::result::Result<T, Error>;

/// Definition of errors that might be returned by filesystem functionality.
#[derive(Clone, Copy, Debug, PartialEq, Eq, Structural)]
pub enum Error {
    /// Input / output error occurred.
    Io,
    /// File or filesystem was corrupt.
    Corruption,
    /// No entry found with that name.
    NoSuchEntry,
    /// File or directory already exists.
    EntryAlreadyExisted,
    /// Path name is not a directory.
    PathNotDir,
    /// Path specification is to a directory.
    PathIsDir,
    /// Directory was not empty.
    DirNotEmpty,
    /// Bad file descriptor.
    BadFileDescriptor,
    /// File is too big.
    FileTooBig,
    /// Incorrect value specified to function.
    Invalid,
    /// No space left available for operation.
    NoSpace,
    /// No memory available for completing request.
    NoMemory,
    /// No attribute or data available
    NoAttribute,
    /// Filename too long
    FilenameTooLong,
    /// Unknown error occurred, integer code specified.
    Unknown(i32),
}

/// The error that a negative code stands for.
pub open spec fn error_of_code(code: i32) -> Error {
    if code == -5 {
        Error::Io
    } else if code == -84 {
        Error::Corruption
    } else if code == -2 {
        Error::NoSuchEntry
    } else if code == -17 {
        Error::EntryAlreadyExisted
    } else if code == -20 {
        Error::PathNotDir
    } else if code == -21 {
        Error::PathIsDir
    } else if code == -39 {
        Error::DirNotEmpty
    } else if code == -9 {
        Error::BadFileDescriptor
    } else if code == -27 {
        Error::FileTooBig
    } else if code == -22 {
        Error::Invalid
    } else if code == -28 {
        Error::NoSpace
    } else if code == -12 {
        Error::NoMemory
    } else if code == -61 {
        Error::NoAttribute
    } else if code == -36 {
        Error::FilenameTooLong
    } else {
        Error::Unknown(code)
    }
}

/// The code of an error.
pub open spec fn code_of_error(error: Error) -> i32 {
    match error {
        Error::Io => -5i32,
        Error::Corruption => -84i32,
        Error::NoSuchEntry => -2i32,
        Error::EntryAlreadyExisted => -17i32,
        Error::PathNotDir => -20i32,
        Error::PathIsDir => -21i32,
        Error::DirNotEmpty => -39i32,
        Error::BadFileDescriptor => -9i32,
        Error::FileTooBig => -27i32,
        Error::Invalid => -22i32,
        Error::NoSpace => -28i32,
        Error::NoMemory => -12i32,
        Error::NoAttribute => -61i32,
        Error::FilenameTooLong => -36i32,
        Error::Unknown(code) => code,
    }
}

impl Error {
    /// The error that the code `code` stands for.
    pub fn from_code(code: i32) -> (r: Error)
        ensures
            r == error_of_code(code),
    {
        if code == -5 {
            Error::Io
        } else if code == -84 {
            Error::Corruption
        } else if code == -2 {
            Error::NoSuchEntry
        } else if code == -17 {
            Error::EntryAlreadyExisted
        } else if code == -20 {
            Error::PathNotDir
        } else if code == -21 {
            Error::PathIsDir
        } else if code == -39 {
            Error::DirNotEmpty
        } else if code == -9 {
            Error::BadFileDescriptor
        } else if code == -27 {
            Error::FileTooBig
        } else if code == -22 {
            Error::Invalid
        } else if code == -28 {
            Error::NoSpace
        } else if code == -12 {
            Error::NoMemory
        } else if code == -61 {
            Error::NoAttribute
        } else if code == -36 {
            Error::FilenameTooLong
        } else {
            Error::Unknown(code)
        }
    }

    /// The code of the error.
    pub fn code(&self) -> (r: i32)
        ensures
            r == code_of_error(*self),
    {
        match self {
            Error::Io => -5,
            Error::Corruption => -84,
            Error::NoSuchEntry => -2,
            Error::EntryAlreadyExisted => -17,
            Error::PathNotDir => -20,
            Error::PathIsDir => -21,
            Error::DirNotEmpty => -39,
            Error::BadFileDescriptor => -9,
            Error::FileTooBig => -27,
            Error::Invalid => -22,
            Error::NoSpace => -28,
            Error::NoMemory => -12,
            Error::NoAttribute => -61,
            Error::FilenameTooLong => -36,
            Error::Unknown(code) => *code,
        }
    }

    /// The result that a code stands for where only success is expected:
    /// zero is success, and every other code an error, a positive one an
    /// unknown error.
    pub fn empty_from(error_code: i32) -> (r: Result<()>)
        ensures
            error_code == 0 ==> r.is_ok(),
            error_code != 0 ==> r == Err::<(), Error>(error_of_code(error_code)),
    {
        if error_code == 0 {
            Ok(())
        } else {
            Err(Error::from_code(error_code))
        }
    }

    /// The result that a code stands for where a size is expected: a number
    /// that is not negative is the size, and a negative one an error.
    pub fn usize_from(error_code: i32) -> (r: Result<usize>)
        ensures
            error_code >= 0 ==> r == Ok::<usize, Error>(error_code as usize),
            error_code < 0 ==> r == Err::<usize, Error>(error_of_code(error_code)),
    {
        if error_code >= 0 {
            Ok(error_code as usize)
        } else {
            Err(Error::from_code(error_code))
        }
    }
}

/// The result that a code stands for where a number is expected: a number
/// that is not negative is handed on, and a negative one is an error.
pub fn result_from(error_code: i32) -> (r: Result<u32>)
    ensures
        error_code >= 0 ==> r == Ok::<u32, Error>(error_code as u32),
        error_code < 0 ==> r == Err::<u32, Error>(error_of_code(error_code)),
{
    if error_code >= 0 {
        Ok(error_code as u32)
    } else {
        Err(Error::from_code(error_code))
    }
}

/// A code names the error that has this code.
pub proof fn lemma_code_of_error_of_code(code: i32)
    ensures
        code_of_error(error_of_code(code)) == code,
{
}

/// A filesystem that could not be mounted, with the reason.
pub struct MountError<F>(pub F, pub Error);

/// The result of mounting: the mounted filesystem, or the one that could
/// not be mounted and why.
pub enum MountResult<F> {
    /// The filesystem was mounted.
    Mounted(F),
    /// The filesystem could not be mounted.
    Failed(MountError<F>),
}

impl<F> MountResult<F> {
    /// The mounted filesystem. There must be one.
    pub fn unwrap(self) -> (fs: F)
        requires
            self is Mounted,
        ensures
            self == MountResult::Mounted(fs),
    {
        match self {
            MountResult::Mounted(fs) => fs,
            MountResult::Failed(_) => vstd::pervasive::unreached(),
        }
    }

    pub fn is_ok(&self) -> (r: bool)
        ensures
            r == (self is Mounted),
    {
        match self {
            MountResult::Mounted(_) => true,
            MountResult::Failed(_) => false,
        }
    }

    pub fn ok(self) -> (r: Option<F>)
        ensures
            match self {
                MountResult::Mounted(fs) => r == Some(fs),
                MountResult::Failed(_) => r.is_none(),
            },
    {
        match self {
            MountResult::Mounted(fs) => Some(fs),
            MountResult::Failed(_) => None,
        }
    }

    pub fn is_err(&self) -> (r: bool)
        ensures
            r == (self is Failed),
    {
        !self.is_ok()
    }

    pub fn err(self) -> (r: Option<MountError<F>>)
        ensures
            match self {
                MountResult::Mounted(_) => r.is_none(),
                MountResult::Failed(error) => r == Some(error),
            },
    {
        match self {
            MountResult::Mounted(_) => None,
            MountResult::Failed(error) => Some(error),
        }
    }
}

/// The marks by which a filesystem is known to be mounted or not.
pub trait MountState {

}

/// The mark of a mounted filesystem.
#[derive(Clone, Copy, Debug, PartialEq, Eq, Structural)]
pub struct Mounted;

impl MountState for Mounted {

}

/// The mark of a filesystem that is not mounted.
#[derive(Clone, Copy, Debug, PartialEq, Eq, Structural)]
pub struct NotMounted;

impl MountState for NotMounted {

}

} // verus!
