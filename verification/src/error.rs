//! The ways in which an operation of this crate can fail.

use vstd::prelude::*;

verus! {

/// The system operation during which the platform reported a failure.
#[derive(Clone, Copy, Debug, PartialEq, Eq, Structural)]
pub enum Operation {
    /// Opening the file.
    Open,
    /// Reading the file's metadata.
    Stat,
    /// Creating the memory mapping.
    Mmap,
    /// Asking the kernel which pages are resident.
    Mincore,
    /// Releasing the memory mapping.
    Munmap,
    /// Announcing an access pattern.
    Fadvise,
    /// Reserving storage.
    Fallocate,
}

/// Why an operation did not succeed.
#[derive(Clone, Copy, Debug, PartialEq, Eq, Structural)]
pub enum Error {
    /// The request itself is not acceptable, whatever the system's state.
    InvalidArgument,
    /// The platform refused `operation` with the error number `code`.
    OsError { operation: Operation, code: i32 },
    /// The platform lacks the kernel facility that the operation needs.
    Unsupported,
}

/// What a system call that returns its error number amounts to: zero is
/// success, and anything else is the failure of `operation` with that number.
pub open spec fn status_of(operation: Operation, code: i32) -> Result<(), Error> {
    if code == 0 {
        Ok(())
    } else {
        Err(Error::OsError { operation, code })
    }
}

/// What a system call that only signals failure through its return value
/// amounts to: zero is success, and after anything else the failure of
/// `operation` carries the error number `errno` that the platform holds.
pub open spec fn status_with_errno(operation: Operation, status: i32, errno: i32) -> Result<
    (),
    Error,
> {
    if status == 0 {
        Ok(())
    } else {
        Err(Error::OsError { operation, code: errno })
    }
}

impl Error {
    /// Interprets the status `code` that the platform returned for `operation`.
    pub fn check(operation: Operation, code: i32) -> (r: Result<(), Error>)
        ensures
            r == status_of(operation, code),
    {
        if code == 0 {
            Ok(())
        } else {
            Err(Error::OsError { operation, code })
        }
    }

    /// Interprets the return value `status` of `operation`, for which the
    /// platform holds the error number `errno` after the call.
    pub fn check_errno(operation: Operation, status: i32, errno: i32) -> (r: Result<(), Error>)
        ensures
            r == status_with_errno(operation, status, errno),
    {
        if status == 0 {
            Ok(())
        } else {
            Err(Error::OsError { operation, code: errno })
        }
    }
}

} // verus!
