//! The errors that the library reports, and the Linux error numbers among them.

use vstd::prelude::*;

verus! {

/// No such file or directory.
pub const LINUX_ENOENT: i32 = 2;

/// Input/output error.
pub const LINUX_EIO: i32 = 5;

/// Bad file descriptor.
pub const LINUX_EBADF: i32 = 9;

/// Read-only file system.
pub const LINUX_EROFS: i32 = 30;

/// Why an operation failed.
#[derive(Debug, Clone, Copy, PartialEq, Eq, Structural)]
pub enum Error {
    /// The bytes end before the value does.
    UnexpectedEof,
    /// The bytes are no valid text.
    InvalidData,
    /// An error number of the operating system.
    Os(i32),
}

/// The error of a path or an inode that does not exist.
pub fn enoent() -> (e: Error)
    ensures
        e == Error::Os(LINUX_ENOENT),
{
    Error::Os(LINUX_ENOENT)
}

/// The error of a handle that does not exist or belongs to another inode.
pub fn ebadf() -> (e: Error)
    ensures
        e == Error::Os(LINUX_EBADF),
{
    Error::Os(LINUX_EBADF)
}

/// The error of every operation that would write.
pub fn erofs() -> (e: Error)
    ensures
        e == Error::Os(LINUX_EROFS),
{
    Error::Os(LINUX_EROFS)
}

} // verus!
