//! What can go wrong, and the error number under which the file system
//! reports it.
use vstd::prelude::*;

verus! {

/// Why an operation of the managers was refused or failed.
#[derive(Clone, Copy, Debug, PartialEq, Eq, Structural)]
pub enum Error {
    /// A cgroup of that name is managed already.
    AlreadyExists,
    /// No such cgroup.
    NotFound,
    /// The cgroup exists but this controller did not create it.
    NotManaged,
    /// The admission test refused the reservation.
    InsufficientBudget,
    /// What was written is not in the grammar of the file.
    ParseError,
    /// The policy of the process, or the cgroup it is in, forbids the change.
    PolicyConflict,
    /// The policy is not one that can be asked for.
    Unsupported,
    /// The platform reported a failure.
    PlatformError,
    /// The file cannot be read.
    NotReadable,
    /// A directory was asked of what is a file.
    NotDirectory,
    /// A file was asked of what is a directory.
    IsDirectory,
}

/// The error numbers that replies of the file system carry.
#[derive(Clone, Copy, Debug, PartialEq, Eq, Structural)]
pub enum Errno {
    ENOENT,
    EIO,
    EACCES,
    ENOTDIR,
    EISDIR,
    EINVAL,
    ENOSYS,
}

impl Error {
    /// The error number of a write that failed with this error.
    pub open spec fn write_errno(self) -> Errno {
        match self {
            Error::NotDirectory => Errno::ENOTDIR,
            Error::IsDirectory => Errno::EISDIR,
            _ => Errno::EACCES,
        }
    }

    /// The error number of a read that failed with this error.
    pub open spec fn read_errno(self) -> Errno {
        match self {
            Error::NotFound => Errno::ENOENT,
            Error::NotDirectory => Errno::ENOTDIR,
            Error::IsDirectory => Errno::EISDIR,
            _ => Errno::EIO,
        }
    }

    pub fn errno_for_write(&self) -> (errno: Errno)
        ensures
            errno == self.write_errno(),
    {
        match self {
            Error::NotDirectory => Errno::ENOTDIR,
            Error::IsDirectory => Errno::EISDIR,
            _ => Errno::EACCES,
        }
    }

    pub fn errno_for_read(&self) -> (errno: Errno)
        ensures
            errno == self.read_errno(),
    {
        match self {
            Error::NotFound => Errno::ENOENT,
            Error::NotDirectory => Errno::ENOTDIR,
            Error::IsDirectory => Errno::EISDIR,
            _ => Errno::EIO,
        }
    }
}

} // verus!
