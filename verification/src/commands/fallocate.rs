//! Reserving storage for a file.

use vstd::prelude::*;
use crate::error::Error;
use crate::filesystem::{fallocate, AllocateRequest, Platform};

verus! {

/// The reservation of storage for one file.
#[derive(Debug)]
pub struct Fallocate {
    /// The path of the file.
    pub file_name: String,
    /// The number of bytes from the start of the file to reserve storage for.
    pub length: usize,
}

impl Fallocate {
    /// Decides what to tell the kernel: to reserve storage for the first
    /// `length` bytes, and to leave the file's size as it is.
    pub fn run(&self, platform: Platform) -> (r: Result<AllocateRequest, Error>)
        ensures
            platform != Platform::Linux ==> r == Err::<AllocateRequest, Error>(Error::Unsupported),
            platform == Platform::Linux ==> r == Ok::<AllocateRequest, Error>(
                AllocateRequest { keep_size: true, offset: 0, len: self.length },
            ),
    {
        fallocate(platform, self.length)
    }
}

} // verus!
