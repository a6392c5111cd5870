//! The bookkeeping of one memory mapping of a byte range of a file.
//!
//! The kernel maps whole pages from page-aligned file offsets. A request for
//! an arbitrary range is therefore widened at its front to the start of the
//! page; the region that the caller sees begins where the request began, and
//! the release covers exactly what was mapped.

use vstd::prelude::*;
use crate::arith::lemma_quotient_and_rest;
use crate::error::{Error, Operation};

verus! {

/// The access that a mapping grants to its memory.
#[derive(Clone, Copy, Debug, PartialEq, Eq, Structural)]
pub enum Protection {
    /// The pages may not be read, written or executed.
    NoAccess,
    /// The pages may be read.
    Read,
    /// The pages may be read and written.
    ReadWrite,
}

/// Whether a mapping shares its pages with the other mappings of the file.
#[derive(Clone, Copy, Debug, PartialEq, Eq, Structural)]
pub enum Sharing {
    /// The mapping shows the file's own pages.
    Shared,
    /// The mapping gets copies of the pages it changes.
    Private,
}

/// A mapping request as a plain value.
pub struct MapRequestView {
    /// The file offset that the caller asked for.
    pub offset: nat,
    /// The number of bytes that the caller asked for.
    pub length: nat,
    /// The distance from the start of the page to `offset`.
    pub alignment: nat,
    pub protection: Protection,
    pub sharing: Sharing,
}

impl MapRequestView {
    /// The page-aligned file offset at which the kernel maps.
    pub open spec fn aligned_offset(self) -> int {
        self.offset - self.alignment
    }

    /// The number of bytes that the kernel maps.
    pub open spec fn aligned_length(self) -> nat {
        self.length + self.alignment
    }
}

/// What has to be asked of the kernel to map a byte range of a file.
#[derive(Clone, Copy, Debug)]
pub struct MapRequest {
    offset: usize,
    length: usize,
    alignment: usize,
    protection: Protection,
    sharing: Sharing,
}

impl View for MapRequest {
    type V = MapRequestView;

    closed spec fn view(&self) -> MapRequestView {
        MapRequestView {
            offset: self.offset as nat,
            length: self.length as nat,
            alignment: self.alignment as nat,
            protection: self.protection,
            sharing: self.sharing,
        }
    }
}

impl MapRequest {
    #[verifier::type_invariant]
    spec fn well_formed(self) -> bool {
        &&& self.alignment <= self.offset
        &&& 0 < self.length + self.alignment <= usize::MAX
    }

    /// Prepares the mapping of `length` bytes from `offset`, on a platform
    /// whose pages have `page_size` bytes. A range that maps no byte at all
    /// is refused.
    pub fn new(
        length: usize,
        protection: Protection,
        sharing: Sharing,
        offset: usize,
        page_size: usize,
    ) -> (r: Result<MapRequest, Error>)
        requires
            page_size > 0,
            length + offset % page_size <= usize::MAX,
        ensures
            r is Err <==> length + offset % page_size == 0,
            r matches Err(e) ==> e == Error::InvalidArgument,
            r matches Ok(request) ==> request@ == (MapRequestView {
                offset: offset as nat,
                length: length as nat,
                alignment: (offset % page_size) as nat,
                protection,
                sharing,
            }),
    {
        let alignment: usize = offset % page_size;
        let aligned_length: usize = length + alignment;
        if aligned_length == 0 {
            return Err(Error::InvalidArgument);
        }
        assert(alignment <= offset) by (nonlinear_arith)
            requires
                page_size > 0,
                alignment == offset % page_size,
        ;
        Ok(MapRequest { offset, length, alignment, protection, sharing })
    }

    /// The file offset at which the kernel has to map: the start of the page
    /// that holds the requested offset.
    pub fn aligned_offset(&self) -> (r: usize)
        ensures
            r == self@.aligned_offset(),
            r <= self@.offset,
    {
        proof {
            use_type_invariant(self);
        }
        self.offset - self.alignment
    }

    /// The number of bytes that the kernel has to map: the requested length
    /// and the bytes between the start of the page and the requested offset.
    pub fn aligned_length(&self) -> (r: usize)
        ensures
            r == self@.aligned_length(),
            r >= self@.length,
            r > 0,
    {
        proof {
            use_type_invariant(self);
        }
        self.length + self.alignment
    }

    /// The access to ask for.
    pub fn protection(&self) -> (r: Protection)
        ensures
            r == self@.protection,
    {
        self.protection
    }

    /// The sharing to ask for.
    pub fn sharing(&self) -> (r: Sharing)
        ensures
            r == self@.sharing,
    {
        self.sharing
    }
}

/// The aligned file offset is a multiple of the page size, and the aligned
/// range ends where the requested range ends.
pub proof fn lemma_request_is_page_aligned(offset: nat, length: nat, page_size: nat)
    requires
        page_size > 0,
    ensures
        (offset - offset % page_size) % (page_size as int) == 0,
        0 <= offset % page_size < page_size,
        (offset - offset % page_size) + (length + offset % page_size) == offset + length,
{
    let q = offset / page_size;
    lemma_quotient_and_rest(offset, page_size);
    assert((q * page_size) % page_size == 0) by (nonlinear_arith)
        requires
            page_size > 0,
    ;
}

/// A mapped region as a plain value.
pub struct MmapView {
    /// The address of the first requested byte.
    pub addr: nat,
    /// The number of requested bytes.
    pub len: nat,
    /// The number of mapped bytes in front of `addr`.
    pub alignment: nat,
}

impl MmapView {
    /// The address range that the kernel mapped, as its first address and its
    /// length.
    pub open spec fn mapped_range(self) -> (int, nat) {
        (self.addr - self.alignment, self.len + self.alignment)
    }
}

/// The region lies inside what was mapped, and ends where the mapping ends:
/// the bytes that the mapping holds in front of the region are never part of
/// it.
pub proof fn lemma_region_within_mapping(region: MmapView)
    ensures
        region.mapped_range().0 <= region.addr,
        region.addr + region.len == region.mapped_range().0 + region.mapped_range().1,
        region.mapped_range().1 >= region.len,
{
}

/// A live mapping of a byte range of a file. It is the only handle of its
/// mapping: it cannot be copied, and giving it up yields the range to release.
#[derive(Debug)]
pub struct Mmap {
    ptr: usize,
    len: usize,
    alignment: usize,
}

impl View for Mmap {
    type V = MmapView;

    closed spec fn view(&self) -> MmapView {
        MmapView { addr: self.ptr as nat, len: self.len as nat, alignment: self.alignment as nat }
    }
}

impl Mmap {
    #[verifier::type_invariant]
    spec fn well_formed(self) -> bool {
        &&& self.alignment <= self.ptr
        &&& self.ptr + self.len <= usize::MAX
    }

    /// What to ask of the kernel for a region of `length` bytes from `offset`:
    /// a shared mapping without any access, which exists only so that the
    /// kernel can be asked about the residency of its pages.
    pub fn request(offset: usize, length: usize, page_size: usize) -> (r: Result<MapRequest, Error>)
        requires
            page_size > 0,
            length + offset % page_size <= usize::MAX,
        ensures
            r is Err <==> length + offset % page_size == 0,
            r matches Err(e) ==> e == Error::InvalidArgument,
            r matches Ok(request) ==> request@ == (MapRequestView {
                offset: offset as nat,
                length: length as nat,
                alignment: (offset % page_size) as nat,
                protection: Protection::NoAccess,
                sharing: Sharing::Shared,
            }),
    {
        MapRequest::new(length, Protection::NoAccess, Sharing::Shared, offset, page_size)
    }

    /// The region that results from `request` once the kernel has answered:
    /// with the address at which it mapped the aligned range, or with the
    /// error number of its refusal.
    pub fn map(request: &MapRequest, outcome: Result<usize, i32>) -> (r: Result<Mmap, Error>)
        requires
            outcome matches Ok(base) ==> base + request@.aligned_length() <= usize::MAX,
        ensures
            match outcome {
                Ok(base) => r matches Ok(region) && region@ == (MmapView {
                    addr: (base + request@.alignment) as nat,
                    len: request@.length,
                    alignment: request@.alignment,
                }) && region@.mapped_range() == (base as int, request@.aligned_length()),
                Err(code) => r == Err::<Mmap, Error>(
                    Error::OsError { operation: Operation::Mmap, code },
                ),
            },
    {
        proof {
            use_type_invariant(request);
        }
        match outcome {
            Ok(base) => Ok(
                Mmap { ptr: base + request.alignment, len: request.length, alignment: request.alignment },
            ),
            Err(code) => Err(Error::OsError { operation: Operation::Mmap, code }),
        }
    }

    /// The address of the first byte of the region.
    pub fn as_ptr(&self) -> (addr: usize)
        ensures
            addr == self@.addr,
    {
        self.ptr
    }

    /// The number of bytes of the region: the length that was asked for.
    pub fn len(&self) -> (len: usize)
        ensures
            len == self@.len,
    {
        self.len
    }

    /// Whether the region holds no byte.
    pub fn is_empty(&self) -> (empty: bool)
        ensures
            empty <==> self@.len == 0,
    {
        self.len == 0
    }

    /// Gives the region up. The result is the address range to release, as
    /// its first address and its length: exactly the range that was mapped.
    pub fn unmap(self) -> (range: (usize, usize))
        ensures
            (range.0 as int, range.1 as nat) == self@.mapped_range(),
    {
        proof {
            use_type_invariant(&self);
        }
        (self.ptr - self.alignment, self.len + self.alignment)
    }
}

} // verus!
