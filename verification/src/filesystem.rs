//! What the kernel reports about one file: its size in pages, and which of
//! those pages are resident in the page cache.

use vstd::prelude::*;
use crate::arith::lemma_quotient_and_rest;
use crate::error::{status_of, status_with_errno, Error, Operation};
use crate::mmap::{MapRequest, MapRequestView, Mmap, MmapView, Protection, Sharing};

verus! {

/// The least number of units of size `unit` that cover `amount`.
pub open spec fn ceil_div(amount: nat, unit: nat) -> nat
    recommends
        unit > 0,
{
    if amount % unit == 0 {
        amount / unit
    } else {
        amount / unit + 1
    }
}

/// `ceil_div` is the ceiling of the quotient: its units cover `amount`, and
/// overshoot it by less than one unit.
pub proof fn lemma_ceil_div_covers(amount: nat, unit: nat)
    requires
        unit > 0,
    ensures
        ceil_div(amount, unit) * unit >= amount,
        ceil_div(amount, unit) * unit < amount + unit,
{
    let q = amount / unit;
    lemma_quotient_and_rest(amount, unit);
    assert((q + 1) * unit == q * unit + unit) by (nonlinear_arith);
}

/// Whether a status byte marks its page as resident: bit 0 decides, the other
/// bits carry no meaning.
pub open spec fn is_resident(flag: u8) -> bool {
    flag & 1 == 1
}

/// How many of `flags` mark a resident page.
pub open spec fn count_resident(flags: Seq<u8>) -> nat
    decreases flags.len(),
{
    if flags.len() == 0 {
        0
    } else {
        count_resident(flags.drop_last()) + if is_resident(flags.last()) {
            1nat
        } else {
            0nat
        }
    }
}

/// No more pages are resident than there are pages.
pub proof fn lemma_count_resident_bounded(flags: Seq<u8>)
    ensures
        count_resident(flags) <= flags.len(),
    decreases flags.len(),
{
    if flags.len() > 0 {
        lemma_count_resident_bounded(flags.drop_last());
    }
}

/// The number of pages of `page_size` bytes that a file of `file_bytes` bytes
/// occupies.
pub fn page_count(file_bytes: u64, page_size: u64) -> (pages: u64)
    requires
        page_size > 0,
    ensures
        pages == ceil_div(file_bytes as nat, page_size as nat),
{
    let whole: u64 = file_bytes / page_size;
    if file_bytes % page_size == 0 {
        whole
    } else {
        assert(whole < u64::MAX) by (nonlinear_arith)
            requires
                whole == file_bytes / page_size,
                file_bytes % page_size != 0,
                page_size > 0,
        ;
        whole + 1
    }
}

/// Whether the status byte `flag` marks a resident page.
pub fn resident(flag: u8) -> (r: bool)
    ensures
        r == is_resident(flag),
{
    (flag & 1) == 1
}

/// Counts the resident pages among `flags`.
pub fn cached_page_count(flags: &Vec<u8>) -> (cached: u64)
    ensures
        cached == count_resident(flags@),
{
    let mut cached: u64 = 0;
    let mut i: usize = 0;
    while i < flags.len()
        invariant
            i <= flags.len(),
            cached == count_resident(flags@.take(i as int)),
            cached <= i,
        decreases flags.len() - i,
    {
        assert(flags@.take(i + 1).drop_last() =~= flags@.take(i as int));
        if resident(flags[i]) {
            cached = cached + 1;
        }
        i = i + 1;
    }
    assert(flags@.take(i as int) =~= flags@);
    cached
}

/// The quotient of `numerator` by `denominator`, rounded to the nearest whole
/// number; a quotient halfway between two whole numbers goes to the even one.
pub open spec fn round_half_even(numerator: nat, denominator: nat) -> nat
    recommends
        denominator > 0,
{
    let quotient = numerator / denominator;
    let rest = numerator % denominator;
    if 2 * rest < denominator || (2 * rest == denominator && quotient % 2 == 0) {
        quotient
    } else {
        quotient + 1
    }
}

/// The share that `cached_pages` pages are of `total_pages` pages, in
/// hundredths of a percent, rounded to the nearest. Of no pages, no share is
/// cached.
pub open spec fn cached_hundredths(cached_pages: nat, total_pages: nat) -> nat {
    if total_pages == 0 {
        0
    } else {
        round_half_even(cached_pages * 10000, total_pages)
    }
}

/// Rounding moves a quotient by less than one: the rounded quotient times the
/// denominator lies within half a denominator of the numerator.
pub proof fn lemma_round_half_even_is_nearest(numerator: nat, denominator: nat)
    requires
        denominator > 0,
    ensures
        2 * round_half_even(numerator, denominator) * denominator <= 2 * numerator + denominator,
        2 * numerator <= 2 * round_half_even(numerator, denominator) * denominator + denominator,
{
    let q = numerator / denominator;
    lemma_quotient_and_rest(numerator, denominator);
    assert(2 * (q + 1) * denominator == 2 * q * denominator + 2 * denominator)
        by (nonlinear_arith);
    assert(2 * q * denominator == 2 * (q * denominator)) by (nonlinear_arith);
}

/// A part is no more than the whole: no more than 100 percent are cached.
pub proof fn lemma_cached_hundredths_bounded(cached_pages: nat, total_pages: nat)
    requires
        cached_pages <= total_pages,
    ensures
        cached_hundredths(cached_pages, total_pages) <= 10000,
        cached_pages == 0 ==> cached_hundredths(cached_pages, total_pages) == 0,
        cached_pages == total_pages && total_pages > 0 ==> cached_hundredths(
            cached_pages,
            total_pages,
        ) == 10000,
{
    if total_pages > 0 {
        let n = cached_pages * 10000;
        let q = n / total_pages;
        let r = n % total_pages;
        lemma_quotient_and_rest(n, total_pages);
        assert(q <= 10000 && (q == 10000 ==> r == 0) && (cached_pages == total_pages ==> q
            == 10000) && (cached_pages == 0 ==> q == 0 && r == 0)) by (nonlinear_arith)
            requires
                n == cached_pages * 10000,
                cached_pages <= total_pages,
                total_pages > 0,
                n == q * total_pages + r,
                0 <= r < total_pages,
                0 <= q,
        ;
    }
}

/// The residency statistics of one file.
#[derive(Debug)]
pub struct FincoreStats {
    /// The size of the file in bytes.
    pub file_bytes: u64,
    /// The number of bytes in resident pages.
    pub cached_bytes: u64,
    /// The number of pages that the file occupies.
    pub total_pages: u64,
    /// The number of resident pages.
    pub cached_pages: u64,
    /// One status byte per page, in the order of the file.
    pub pages: Vec<u8>,
}

impl FincoreStats {
    /// Whether these are the statistics of a file of `file_bytes` bytes whose
    /// pages of `page_size` bytes the kernel reported as `flags`.
    pub open spec fn describes(&self, file_bytes: u64, page_size: usize, flags: Seq<u8>) -> bool {
        &&& self.file_bytes == file_bytes
        &&& self.total_pages == ceil_div(file_bytes as nat, page_size as nat)
        &&& self.cached_pages == count_resident(flags)
        &&& self.cached_bytes == count_resident(flags) * page_size
        &&& self.pages@ == flags
    }

    /// Whether the counts agree with the flags: one flag per page, and as
    /// many cached pages as flags mark.
    pub open spec fn consistent(&self) -> bool {
        &&& self.total_pages == self.pages@.len()
        &&& self.cached_pages == count_resident(self.pages@)
    }

    /// The statistics of a file of `file_bytes` bytes whose pages of
    /// `page_size` bytes the kernel reported as `pages`.
    pub fn new(file_bytes: u64, page_size: usize, pages: Vec<u8>) -> (stats: FincoreStats)
        requires
            page_size > 0,
            pages@.len() == ceil_div(file_bytes as nat, page_size as nat),
            count_resident(pages@) * page_size <= u64::MAX,
        ensures
            stats.describes(file_bytes, page_size, pages@),
            stats.consistent(),
            stats.cached_pages <= stats.total_pages,
    {
        let total_pages: u64 = page_count(file_bytes, page_size as u64);
        let cached_pages: u64 = cached_page_count(&pages);
        proof {
            lemma_count_resident_bounded(pages@);
        }
        let cached_bytes: u64 = cached_pages * (page_size as u64);
        FincoreStats { file_bytes, cached_bytes, total_pages, cached_pages, pages }
    }

    /// The statistics of a file without content: no page, nothing cached.
    pub fn empty() -> (stats: FincoreStats)
        ensures
            stats.file_bytes == 0,
            stats.total_pages == 0,
            stats.cached_pages == 0,
            stats.cached_bytes == 0,
            stats.pages@ == Seq::<u8>::empty(),
            stats.consistent(),
            forall|page_size: usize|
                page_size > 0 ==> #[trigger] stats.describes(0, page_size, Seq::empty()),
    {
        let stats = FincoreStats {
            file_bytes: 0,
            cached_bytes: 0,
            total_pages: 0,
            cached_pages: 0,
            pages: Vec::new(),
        };
        assert forall|page_size: usize| page_size > 0 implies #[trigger] stats.describes(
            0,
            page_size,
            Seq::empty(),
        ) by {
            assert(0nat % (page_size as nat) == 0 && 0nat / (page_size as nat) == 0)
                by (nonlinear_arith)
                requires
                    page_size > 0,
            ;
            assert(count_resident(Seq::<u8>::empty()) * page_size == 0) by (nonlinear_arith)
                requires
                    count_resident(Seq::<u8>::empty()) == 0,
            ;
        }
        stats
    }

    /// Whether the counts agree with the flags.
    pub fn is_consistent(&self) -> (consistent: bool)
        ensures
            consistent == self.consistent(),
    {
        let cached: u64 = cached_page_count(&self.pages);
        self.pages.len() as u64 == self.total_pages && cached == self.cached_pages
    }

    /// The share of the file that is cached, in hundredths of a percent,
    /// rounded to the nearest.
    pub fn cached_percent(&self) -> (hundredths: u64)
        requires
            self.cached_pages <= self.total_pages,
        ensures
            hundredths == cached_hundredths(self.cached_pages as nat, self.total_pages as nat),
            hundredths <= 10000,
    {
        proof {
            lemma_cached_hundredths_bounded(self.cached_pages as nat, self.total_pages as nat);
        }
        if self.total_pages == 0 {
            return 0;
        }
        let scaled: u128 = (self.cached_pages as u128) * 10000;
        let total: u128 = self.total_pages as u128;
        let quotient: u128 = scaled / total;
        let rest: u128 = scaled % total;
        let rounded: u128 = if 2 * rest < total || (2 * rest == total && quotient % 2 == 0) {
            quotient
        } else {
            quotient + 1
        };
        rounded as u64
    }
}

/// Statistics that describe a file are consistent, count no more cached
/// pages than pages, and no more cached bytes than the file's size rounded up
/// to whole pages.
pub proof fn lemma_stats_within_file(
    stats: FincoreStats,
    file_bytes: u64,
    page_size: usize,
    flags: Seq<u8>,
)
    requires
        page_size > 0,
        flags.len() == ceil_div(file_bytes as nat, page_size as nat),
        stats.describes(file_bytes, page_size, flags),
    ensures
        stats.consistent(),
        stats.cached_pages <= stats.total_pages,
        stats.cached_bytes == stats.cached_pages * page_size,
        stats.cached_bytes <= stats.total_pages * page_size,
        stats.total_pages * page_size < file_bytes + page_size,
{
    lemma_count_resident_bounded(flags);
    lemma_ceil_div_covers(file_bytes as nat, page_size as nat);
    assert(stats.cached_pages * page_size <= stats.total_pages * page_size) by (nonlinear_arith)
        requires
            stats.cached_pages <= stats.total_pages,
    ;
}

/// The statistics are a function of the file's size, the page size and the
/// kernel's answer: two statistics that describe the same of these agree in
/// every count and in every flag.
pub proof fn lemma_stats_are_determined(
    first: FincoreStats,
    second: FincoreStats,
    file_bytes: u64,
    page_size: usize,
    flags: Seq<u8>,
)
    requires
        first.describes(file_bytes, page_size, flags),
        second.describes(file_bytes, page_size, flags),
    ensures
        first.file_bytes == second.file_bytes,
        first.total_pages == second.total_pages,
        first.cached_pages == second.cached_pages,
        first.cached_bytes == second.cached_bytes,
        first.pages@ == second.pages@,
{
}

/// The platforms that this crate tells apart: the one that has the kernel
/// facilities for residency queries, access advice and preallocation, and
/// all the others.
#[derive(Clone, Copy, Debug, PartialEq, Eq, Structural)]
pub enum Platform {
    Linux,
    Other,
}

/// The request that maps a whole file of `file_bytes` bytes for a residency
/// query: from its first byte, without access, shared.
pub open spec fn whole_file_request(file_bytes: u64) -> MapRequestView {
    MapRequestView {
        offset: 0,
        length: file_bytes as nat,
        alignment: 0,
        protection: Protection::NoAccess,
        sharing: Sharing::Shared,
    }
}

/// How a residency query begins.
#[derive(Debug)]
pub enum Residency {
    /// The file has no content, so its statistics are known without a
    /// mapping.
    Known(FincoreStats),
    /// The file has to be mapped.
    Pending(Mapping),
}

/// A residency query that waits for the mapping of its file, as a plain
/// value.
pub struct MappingView {
    pub file_bytes: u64,
    pub page_size: usize,
}

/// A residency query that waits for the mapping of its file.
#[derive(Debug)]
pub struct Mapping {
    file_bytes: u64,
    page_size: usize,
    request: MapRequest,
}

impl View for Mapping {
    type V = MappingView;

    closed spec fn view(&self) -> MappingView {
        MappingView { file_bytes: self.file_bytes, page_size: self.page_size }
    }
}

/// A residency query whose file is mapped and that waits for the kernel's
/// answer, as a plain value.
pub struct ProbingView {
    pub file_bytes: u64,
    pub page_size: usize,
    pub region: MmapView,
}

/// A residency query whose file is mapped and that waits for the kernel's
/// answer.
#[derive(Debug)]
pub struct Probing {
    file_bytes: u64,
    page_size: usize,
    region: Mmap,
}

impl View for Probing {
    type V = ProbingView;

    closed spec fn view(&self) -> ProbingView {
        ProbingView { file_bytes: self.file_bytes, page_size: self.page_size, region: self.region@ }
    }
}

/// A residency query that has its answer and waits for the release of its
/// mapping.
#[derive(Debug)]
pub struct Releasing {
    addr: usize,
    len: usize,
    outcome: Result<FincoreStats, Error>,
}

/// Begins the residency query of a file, given what reading its metadata
/// brought: its size in bytes, or the error number of the failure.
///
/// A file without content is answered at once, with empty statistics: no
/// mapping is asked for. Any other file has to be mapped as a whole.
pub fn fincore(platform: Platform, size: Result<u64, i32>, page_size: usize) -> (r: Result<
    Residency,
    Error,
>)
    requires
        page_size > 0,
        size matches Ok(file_bytes) ==> file_bytes <= usize::MAX,
    ensures
        platform != Platform::Linux ==> (r matches Err(e) && e == Error::Unsupported),
        platform == Platform::Linux ==> match size {
            Err(code) => r matches Err(e) && e == (Error::OsError {
                operation: Operation::Stat,
                code,
            }),
            Ok(file_bytes) => if file_bytes == 0 {
                r matches Ok(Residency::Known(stats)) && stats.describes(
                    0,
                    page_size,
                    Seq::empty(),
                ) && stats.consistent()
            } else {
                r matches Ok(Residency::Pending(mapping)) && mapping@ == (MappingView {
                    file_bytes,
                    page_size,
                })
            },
        },
{
    match platform {
        Platform::Linux => {},
        Platform::Other => {
            return Err(Error::Unsupported);
        },
    }
    let file_bytes: u64 = match size {
        Ok(file_bytes) => file_bytes,
        Err(code) => {
            return Err(Error::OsError { operation: Operation::Stat, code });
        },
    };
    if file_bytes == 0 {
        return Ok(Residency::Known(FincoreStats::empty()));
    }
    assert(0usize % page_size == 0) by (nonlinear_arith)
        requires
            page_size > 0,
    ;
    match Mmap::request(0, file_bytes as usize, page_size) {
        Ok(request) => Ok(Residency::Pending(Mapping { file_bytes, page_size, request })),
        Err(e) => Err(e),
    }
}

impl Mapping {
    #[verifier::type_invariant]
    spec fn well_formed(self) -> bool {
        &&& self.page_size > 0
        &&& 0 < self.file_bytes <= usize::MAX
        &&& self.request@ == whole_file_request(self.file_bytes)
    }

    /// What to ask of the kernel: the whole file, without access, shared.
    pub fn request(&self) -> (request: MapRequest)
        ensures
            request@ == whole_file_request(self@.file_bytes),
    {
        proof {
            use_type_invariant(self);
        }
        self.request
    }

    /// Goes on with the kernel's answer to the mapping request: the address
    /// of the mapping, or the error number of its refusal, which ends the
    /// query.
    pub fn mapped(self, outcome: Result<usize, i32>) -> (r: Result<Probing, Error>)
        requires
            outcome matches Ok(base) ==> base + self@.file_bytes <= usize::MAX,
        ensures
            match outcome {
                Ok(base) => r matches Ok(probing) && probing@ == (ProbingView {
                    file_bytes: self@.file_bytes,
                    page_size: self@.page_size,
                    region: MmapView {
                        addr: base as nat,
                        len: self@.file_bytes as nat,
                        alignment: 0,
                    },
                }),
                Err(code) => r matches Err(e) && e == (Error::OsError {
                    operation: Operation::Mmap,
                    code,
                }),
            },
    {
        proof {
            use_type_invariant(&self);
        }
        match Mmap::map(&self.request, outcome) {
            Ok(region) => Ok(
                Probing { file_bytes: self.file_bytes, page_size: self.page_size, region },
            ),
            Err(e) => Err(e),
        }
    }
}

impl Probing {
    #[verifier::type_invariant]
    spec fn well_formed(self) -> bool {
        &&& self.page_size > 0
        &&& 0 < self.file_bytes <= usize::MAX
        &&& self.region@.len == self.file_bytes
        &&& self.region@.alignment == 0
    }

    /// The address at which the kernel is to look.
    pub fn addr(&self) -> (addr: usize)
        ensures
            addr == self@.region.addr,
    {
        self.region.as_ptr()
    }

    /// The number of bytes from `addr` that the kernel is to look at: the
    /// size of the file.
    pub fn length(&self) -> (length: usize)
        ensures
            length == self@.file_bytes,
    {
        proof {
            use_type_invariant(self);
        }
        self.region.len()
    }

    /// A buffer for the kernel's answer: one status byte per page of the
    /// file, none of them marking a resident page.
    pub fn buffer(&self) -> (pages: Vec<u8>)
        ensures
            pages@.len() == ceil_div(self@.file_bytes as nat, self@.page_size as nat),
            forall|i: int| 0 <= i < pages@.len() ==> #[trigger] pages@[i] == 0,
            count_resident(pages@) == 0,
    {
        proof {
            use_type_invariant(self);
            lemma_ceil_div_covers(self.file_bytes as nat, self.page_size as nat);
            assert(ceil_div(self.file_bytes as nat, self.page_size as nat) <= self.file_bytes)
                by (nonlinear_arith)
                requires
                    self.page_size > 0,
                    ceil_div(self.file_bytes as nat, self.page_size as nat) * self.page_size
                        < self.file_bytes + self.page_size,
            ;
        }
        let total_pages: u64 = page_count(self.file_bytes, self.page_size as u64);
        let pages: Vec<u8> = vec![0u8; total_pages as usize];
        proof {
            lemma_unmarked_flags(pages@);
        }
        pages
    }

    /// Goes on with the kernel's answer to the residency question: the
    /// status bytes, or the error number of the failure. Either way the
    /// mapping has to be released next.
    pub fn probed(self, outcome: Result<Vec<u8>, i32>) -> (r: Releasing)
        requires
            outcome matches Ok(pages) ==> {
                &&& pages@.len() == ceil_div(self@.file_bytes as nat, self@.page_size as nat)
                &&& count_resident(pages@) * self@.page_size <= u64::MAX
            },
        ensures
            (r.range().0 as int, r.range().1 as nat) == self@.region.mapped_range(),
            match outcome {
                Ok(pages) => r.outcome() matches Ok(stats) && stats.describes(
                    self@.file_bytes,
                    self@.page_size,
                    pages@,
                ) && stats.consistent(),
                Err(code) => r.outcome() matches Err(e) && e == (Error::OsError {
                    operation: Operation::Mincore,
                    code,
                }),
            },
    {
        proof {
            use_type_invariant(&self);
        }
        let file_bytes: u64 = self.file_bytes;
        let page_size: usize = self.page_size;
        let (addr, len) = self.region.unmap();
        let outcome: Result<FincoreStats, Error> = match outcome {
            Ok(pages) => Ok(FincoreStats::new(file_bytes, page_size, pages)),
            Err(code) => Err(Error::OsError { operation: Operation::Mincore, code }),
        };
        Releasing { addr, len, outcome }
    }
}

/// Flags that are all zero mark no resident page.
pub proof fn lemma_unmarked_flags(flags: Seq<u8>)
    requires
        forall|i: int| 0 <= i < flags.len() ==> #[trigger] flags[i] == 0,
    ensures
        count_resident(flags) == 0,
    decreases flags.len(),
{
    if flags.len() > 0 {
        lemma_unmarked_flags(flags.drop_last());
        assert(0u8 & 1 != 1) by (bit_vector);
    }
}

impl Releasing {
    /// The address range to release, as its first address and its length.
    pub closed spec fn range(&self) -> (usize, usize) {
        (self.addr, self.len)
    }

    /// What the query will return once the mapping is released.
    pub closed spec fn outcome(&self) -> Result<FincoreStats, Error> {
        self.outcome
    }

    /// The address range to release, as its first address and its length.
    pub fn mapped_range(&self) -> (range: (usize, usize))
        ensures
            range == self.range(),
    {
        (self.addr, self.len)
    }

    /// Ends the query once the mapping is released, and gives its outcome.
    ///
    /// A mapping that cannot be released leaves the address space in an
    /// unknown state. There is no going on after that: a caller whose release
    /// failed has to abort, and does not get here.
    pub fn released(self, outcome: Result<(), i32>) -> (r: Result<FincoreStats, Error>)
        requires
            outcome is Ok,
        ensures
            r == self.outcome(),
    {
        self.outcome
    }
}

/// The indices of the resident pages among `flags`, in the order of the
/// file.
pub open spec fn resident_indices(flags: Seq<u8>) -> Seq<int>
    decreases flags.len(),
{
    if flags.len() == 0 {
        Seq::empty()
    } else if is_resident(flags.last()) {
        resident_indices(flags.drop_last()).push(flags.len() - 1)
    } else {
        resident_indices(flags.drop_last())
    }
}

/// There are as many resident indices as resident pages, and each of them is
/// the index of a page.
pub proof fn lemma_resident_indices(flags: Seq<u8>)
    ensures
        resident_indices(flags).len() == count_resident(flags),
        forall|k: int|
            0 <= k < resident_indices(flags).len() ==> 0 <= #[trigger] resident_indices(flags)[k]
                < flags.len(),
        forall|k: int|
            0 <= k < resident_indices(flags).len() ==> is_resident(
                flags[#[trigger] resident_indices(flags)[k]],
            ),
    decreases flags.len(),
{
    if flags.len() > 0 {
        lemma_resident_indices(flags.drop_last());
    }
}

/// Page indices as plain numbers.
pub open spec fn indices_of(indices: Seq<usize>) -> Seq<int> {
    Seq::new(indices.len(), |k: int| indices[k] as int)
}

/// Lists the indices of the resident pages among `flags`, in the order of
/// the file.
pub fn resident_pages(flags: &Vec<u8>) -> (indices: Vec<usize>)
    ensures
        indices_of(indices@) == resident_indices(flags@),
{
    let mut indices: Vec<usize> = Vec::new();
    let mut i: usize = 0;
    while i < flags.len()
        invariant
            i <= flags@.len(),
            indices_of(indices@) == resident_indices(flags@.take(i as int)),
        decreases flags@.len() - i,
    {
        assert(flags@.take(i + 1).drop_last() =~= flags@.take(i as int));
        let ghost before = indices@;
        if resident(flags[i]) {
            indices.push(i);
            assert(indices_of(indices@) =~= indices_of(before).push(i as int));
        }
        i = i + 1;
    }
    assert(flags@.take(i as int) =~= flags@);
    indices
}

/// The access pattern that a caller announces for a range of a file.
#[derive(Clone, Copy, Debug, PartialEq, Eq, Structural)]
pub enum Advise {
    Normal,
    Sequential,
    Random,
    WillNeed,
    DontNeed,
    NoReuse,
}

impl Advise {
    /// The name under which the access pattern is written.
    pub open spec fn name(self) -> Seq<char> {
        match self {
            Advise::Normal => "NORMAL"@,
            Advise::Sequential => "SEQUENTIAL"@,
            Advise::Random => "RANDOM"@,
            Advise::WillNeed => "WILLNEED"@,
            Advise::DontNeed => "DONTNEED"@,
            Advise::NoReuse => "NOREUSE"@,
        }
    }

    /// Writes the access pattern by its name.
    pub fn to_string(&self) -> (s: String)
        ensures
            s@ == self.name(),
    {
        let name: &str = match self {
            Advise::Normal => "NORMAL",
            Advise::Sequential => "SEQUENTIAL",
            Advise::Random => "RANDOM",
            Advise::WillNeed => "WILLNEED",
            Advise::DontNeed => "DONTNEED",
            Advise::NoReuse => "NOREUSE",
        };
        name.to_owned()
    }
}

/// What to tell the kernel to announce an access pattern.
#[derive(Clone, Copy, Debug, PartialEq, Eq, Structural)]
pub struct AdviseRequest {
    pub advise: Advise,
    /// The first byte of the range.
    pub offset: u64,
    /// The length of the range; zero stands for the rest of the file.
    pub len: usize,
}

/// Prepares the announcement of the access pattern `advise` for the `len`
/// bytes from `offset`. A missing offset is the start of the file, a missing
/// length the rest of the file.
pub fn fadvise(platform: Platform, advise: Advise, offset: Option<u64>, len: Option<usize>) -> (r:
    Result<AdviseRequest, Error>)
    ensures
        platform != Platform::Linux ==> r == Err::<AdviseRequest, Error>(Error::Unsupported),
        platform == Platform::Linux ==> r == Ok::<AdviseRequest, Error>(
            AdviseRequest {
                advise,
                offset: match offset {
                    Some(offset) => offset,
                    None => 0,
                },
                len: match len {
                    Some(len) => len,
                    None => 0,
                },
            },
        ),
{
    match platform {
        Platform::Linux => {
            let offset: u64 = match offset {
                Some(offset) => offset,
                None => 0,
            };
            let len: usize = match len {
                Some(len) => len,
                None => 0,
            };
            Ok(AdviseRequest { advise, offset, len })
        },
        Platform::Other => Err(Error::Unsupported),
    }
}

/// What an announcement came to, given the kernel's return value: zero is
/// success, and any other value is itself the error number.
pub fn fadvise_status(status: i32) -> (r: Result<(), Error>)
    ensures
        r == status_of(Operation::Fadvise, status),
{
    Error::check(Operation::Fadvise, status)
}

/// What to tell the kernel to reserve storage for a file.
#[derive(Clone, Copy, Debug, PartialEq, Eq, Structural)]
pub struct AllocateRequest {
    /// Whether the file keeps its size.
    pub keep_size: bool,
    /// The first byte of the range.
    pub offset: u64,
    /// The length of the range.
    pub len: usize,
}

/// Prepares the reservation of storage for the first `len` bytes of a file.
/// The file keeps its size.
pub fn fallocate(platform: Platform, len: usize) -> (r: Result<AllocateRequest, Error>)
    ensures
        platform != Platform::Linux ==> r == Err::<AllocateRequest, Error>(Error::Unsupported),
        platform == Platform::Linux ==> r == Ok::<AllocateRequest, Error>(
            AllocateRequest { keep_size: true, offset: 0, len },
        ),
{
    match platform {
        Platform::Linux => Ok(AllocateRequest { keep_size: true, offset: 0, len }),
        Platform::Other => Err(Error::Unsupported),
    }
}

/// What a reservation came to, given the kernel's return value and the error
/// number that the platform holds after the call: zero is success, and after
/// any other value the error number says why not.
pub fn fallocate_status(status: i32, errno: i32) -> (r: Result<(), Error>)
    ensures
        r == status_with_errno(Operation::Fallocate, status, errno),
{
    Error::check_errno(Operation::Fallocate, status, errno)
}

} // verus!
