//! Announcing an access pattern for a range of a file.

use vstd::prelude::*;
use crate::error::Error;
use crate::filesystem::{fadvise, Advise, AdviseRequest, Platform};

verus! {

/// The announcement of an access pattern for one file.
#[derive(Debug)]
pub struct Fadvise {
    /// The path of the file.
    pub file_name: String,
    /// The access pattern to announce.
    pub advise: Advise,
    /// The first byte of the range; without it, the start of the file.
    pub offset: Option<u64>,
    /// The length of the range; without it, the size of the file.
    pub length: Option<usize>,
}

impl Fadvise {
    /// The first byte of the range that the pattern is announced for.
    pub open spec fn range_offset(&self) -> u64 {
        match self.offset {
            Some(offset) => offset,
            None => 0,
        }
    }

    /// The length of the range that the pattern is announced for, in a file
    /// of `file_bytes` bytes.
    pub open spec fn range_length(&self, file_bytes: u64) -> usize {
        match self.length {
            Some(length) => length,
            None => file_bytes as usize,
        }
    }

    /// The range that the pattern is announced for in a file of `file_bytes`
    /// bytes, as its first byte and its length.
    pub fn range(&self, file_bytes: u64) -> (range: (u64, usize))
        requires
            self.length is None ==> file_bytes <= usize::MAX,
        ensures
            range == (self.range_offset(), self.range_length(file_bytes)),
    {
        let offset: u64 = match self.offset {
            Some(offset) => offset,
            None => 0,
        };
        let length: usize = match self.length {
            Some(length) => length,
            None => file_bytes as usize,
        };
        (offset, length)
    }

    /// Decides what to tell the kernel about a file of `file_bytes` bytes.
    pub fn run(&self, platform: Platform, file_bytes: u64) -> (r: Result<AdviseRequest, Error>)
        requires
            self.length is None ==> file_bytes <= usize::MAX,
        ensures
            platform != Platform::Linux ==> r == Err::<AdviseRequest, Error>(Error::Unsupported),
            platform == Platform::Linux ==> r == Ok::<AdviseRequest, Error>(
                AdviseRequest {
                    advise: self.advise,
                    offset: self.range_offset(),
                    len: self.range_length(file_bytes),
                },
            ),
    {
        let (offset, length) = self.range(file_bytes);
        fadvise(platform, self.advise, Some(offset), Some(length))
    }
}

} // verus!
