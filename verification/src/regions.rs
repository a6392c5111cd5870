//! Aggregation of a file's per-page residency flags into a fixed number of
//! display regions, each a run of consecutive pages.

use vstd::prelude::*;
use crate::filesystem::{ceil_div, count_resident, is_resident, lemma_ceil_div_covers, resident};

verus! {

/// The bucket that the page at `index` falls into, when every bucket spans
/// `width` pages and there are `bucket_count` buckets: the quotient of the
/// index by the width, held down to the last bucket.
pub open spec fn bucket_index(index: int, width: int, bucket_count: int) -> int
    recommends
        0 <= index,
        0 < width,
        0 < bucket_count,
{
    if index / width < bucket_count - 1 {
        index / width
    } else {
        bucket_count - 1
    }
}

/// How many resident pages of `flags` fall into `bucket`.
pub open spec fn bucket_load(flags: Seq<u8>, width: int, bucket_count: int, bucket: int) -> nat
    decreases flags.len(),
{
    if flags.len() == 0 {
        0
    } else {
        bucket_load(flags.drop_last(), width, bucket_count, bucket) + if is_resident(flags.last())
            && bucket_index(flags.len() - 1, width, bucket_count) == bucket {
            1nat
        } else {
            0nat
        }
    }
}

/// The resident pages of the buckets below `upto`, taken together.
pub open spec fn load_below(flags: Seq<u8>, width: int, bucket_count: int, upto: int) -> nat
    decreases upto,
{
    if upto <= 0 {
        0
    } else {
        load_below(flags, width, bucket_count, upto - 1) + bucket_load(
            flags,
            width,
            bucket_count,
            upto - 1,
        )
    }
}

/// The share of a bucket of `capacity` pages that `count` pages make up, in
/// whole percent, rounded down. An empty bucket stands at 0, whatever its
/// capacity.
pub open spec fn percent_of(count: nat, capacity: nat) -> nat {
    if count == 0 {
        0
    } else {
        count * 100 / capacity
    }
}

/// The percentages of all buckets, in the order of the file.
pub open spec fn bucket_percentages(flags: Seq<u8>, bucket_count: int) -> Seq<nat> {
    let width = ceil_div(flags.len(), bucket_count as nat);
    Seq::new(
        bucket_count as nat,
        |b: int| percent_of(bucket_load(flags, width as int, bucket_count, b), width),
    )
}

/// Every page index has a bucket, and that bucket exists: it is the quotient
/// of the index by the width wherever that is a bucket, and the last bucket
/// for every index beyond.
pub proof fn lemma_bucket_index_total(index: int, width: int, bucket_count: int)
    requires
        0 <= index,
        0 < width,
        0 < bucket_count,
    ensures
        0 <= bucket_index(index, width, bucket_count) < bucket_count,
        index / width < bucket_count ==> bucket_index(index, width, bucket_count) == index / width,
        index / width >= bucket_count ==> bucket_index(index, width, bucket_count) == bucket_count
            - 1,
{
    assert(0 <= index / width) by (nonlinear_arith)
        requires
            0 <= index,
            0 < width,
    ;
}

/// With the width that `bucketize` gives its buckets, no page of the file is
/// held down: its quotient by the width is a bucket already.
pub proof fn lemma_bucket_index_exact(index: int, total_pages: nat, bucket_count: nat)
    requires
        0 <= index < total_pages,
        0 < bucket_count,
    ensures
        0 < ceil_div(total_pages, bucket_count),
        bucket_index(index, ceil_div(total_pages, bucket_count) as int, bucket_count as int)
            == index / (ceil_div(total_pages, bucket_count) as int),
{
    let width = ceil_div(total_pages, bucket_count) as int;
    lemma_ceil_div_covers(total_pages, bucket_count);
    assert(0 < width && index / width < bucket_count) by (nonlinear_arith)
        requires
            0 <= index < total_pages,
            0 < bucket_count,
            0 <= width,
            width * bucket_count >= total_pages,
    ;
}

/// One more page adds one to the load of its own bucket if it is resident,
/// and leaves every other load as it was.
pub proof fn lemma_bucket_load_push(
    flags: Seq<u8>,
    flag: u8,
    width: int,
    bucket_count: int,
    bucket: int,
)
    ensures
        bucket_load(flags.push(flag), width, bucket_count, bucket) == bucket_load(
            flags,
            width,
            bucket_count,
            bucket,
        ) + if is_resident(flag) && bucket_index(flags.len() as int, width, bucket_count)
            == bucket {
            1nat
        } else {
            0nat
        },
{
    assert(flags.push(flag).drop_last() =~= flags);
}

/// A bucket holds no more resident pages than the file has pages.
pub proof fn lemma_bucket_load_bounded(flags: Seq<u8>, width: int, bucket_count: int, bucket: int)
    ensures
        bucket_load(flags, width, bucket_count, bucket) <= flags.len(),
    decreases flags.len(),
{
    if flags.len() > 0 {
        lemma_bucket_load_bounded(flags.drop_last(), width, bucket_count, bucket);
    }
}

/// The pages of one bucket are consecutive, so the first pages of a file put
/// into a bucket no more than lie between the bucket's start and its end.
proof fn lemma_bucket_load_of_prefix(flags: Seq<u8>, width: int, bucket_count: int, bucket: int)
    requires
        0 < width,
        0 < bucket_count,
        0 <= bucket < bucket_count,
        flags.len() <= width * bucket_count,
    ensures
        flags.len() <= bucket * width ==> bucket_load(flags, width, bucket_count, bucket) == 0,
        bucket * width < flags.len() <= bucket * width + width ==> bucket_load(
            flags,
            width,
            bucket_count,
            bucket,
        ) <= flags.len() - bucket * width,
        bucket_load(flags, width, bucket_count, bucket) <= width,
    decreases flags.len(),
{
    if flags.len() > 0 {
        let last = flags.len() - 1;
        lemma_bucket_load_of_prefix(flags.drop_last(), width, bucket_count, bucket);
        assert(0 <= last / width < bucket_count) by (nonlinear_arith)
            requires
                0 <= last < width * bucket_count,
                0 < width,
        ;
        assert(last / width == bucket <==> bucket * width <= last < bucket * width + width)
            by (nonlinear_arith)
            requires
                0 <= last,
                0 < width,
        ;
    }
}

/// With the width that `bucketize` gives its buckets, no bucket holds more
/// resident pages than it spans pages.
pub proof fn lemma_bucket_load_within_width(flags: Seq<u8>, bucket_count: nat, bucket: int)
    requires
        0 < bucket_count,
        0 <= bucket < bucket_count,
    ensures
        bucket_load(flags, ceil_div(flags.len(), bucket_count) as int, bucket_count as int, bucket)
            <= ceil_div(flags.len(), bucket_count),
{
    let width = ceil_div(flags.len(), bucket_count) as int;
    lemma_ceil_div_covers(flags.len(), bucket_count);
    if flags.len() == 0 {
    } else {
        assert(0 < width) by (nonlinear_arith)
            requires
                width * bucket_count >= flags.len(),
                flags.len() > 0,
                0 <= width,
        ;
        lemma_bucket_load_of_prefix(flags, width, bucket_count as int, bucket);
    }
}

/// One more page adds one to the loads below `upto` if it is resident and its
/// bucket is among them.
proof fn lemma_load_below_step(flags: Seq<u8>, width: int, bucket_count: int, upto: int)
    requires
        flags.len() > 0,
    ensures
        load_below(flags, width, bucket_count, upto) == load_below(
            flags.drop_last(),
            width,
            bucket_count,
            upto,
        ) + if is_resident(flags.last()) && 0 <= bucket_index(
            flags.len() - 1,
            width,
            bucket_count,
        ) < upto {
            1nat
        } else {
            0nat
        },
    decreases upto,
{
    if upto > 0 {
        lemma_load_below_step(flags, width, bucket_count, upto - 1);
    }
}

/// The buckets partition the resident pages: every resident page counts in
/// exactly one bucket, so the loads of all buckets add up to the number of
/// resident pages.
pub proof fn lemma_buckets_partition(flags: Seq<u8>, width: int, bucket_count: int)
    requires
        0 < width,
        0 < bucket_count,
    ensures
        load_below(flags, width, bucket_count, bucket_count) == count_resident(flags),
    decreases flags.len(),
{
    if flags.len() == 0 {
        lemma_load_below_empty(flags, width, bucket_count, bucket_count);
    } else {
        lemma_buckets_partition(flags.drop_last(), width, bucket_count);
        lemma_load_below_step(flags, width, bucket_count, bucket_count);
        lemma_bucket_index_total(flags.len() - 1, width, bucket_count);
    }
}

/// A file without pages loads no bucket.
proof fn lemma_load_below_empty(flags: Seq<u8>, width: int, bucket_count: int, upto: int)
    requires
        flags.len() == 0,
    ensures
        load_below(flags, width, bucket_count, upto) == 0,
    decreases upto,
{
    if upto > 0 {
        lemma_load_below_empty(flags, width, bucket_count, upto - 1);
    }
}

/// The number of pages that each of `bucket_count` buckets spans so that
/// together they cover `total_pages` pages.
pub fn bucket_width(total_pages: usize, bucket_count: usize) -> (width: usize)
    requires
        bucket_count > 0,
    ensures
        width == ceil_div(total_pages as nat, bucket_count as nat),
        total_pages > 0 ==> width > 0,
{
    proof {
        lemma_ceil_div_covers(total_pages as nat, bucket_count as nat);
        assert(total_pages > 0 ==> ceil_div(total_pages as nat, bucket_count as nat) > 0)
            by (nonlinear_arith)
            requires
                ceil_div(total_pages as nat, bucket_count as nat) * bucket_count >= total_pages,
        ;
    }
    let whole: usize = total_pages / bucket_count;
    if total_pages % bucket_count == 0 {
        whole
    } else {
        assert(whole < usize::MAX) by (nonlinear_arith)
            requires
                whole == total_pages / bucket_count,
                total_pages % bucket_count != 0,
                bucket_count > 0,
                total_pages <= usize::MAX,
        ;
        whole + 1
    }
}

/// The bucket of the page at `index`.
pub fn bucket_of(index: usize, width: usize, bucket_count: usize) -> (bucket: usize)
    requires
        width > 0,
        bucket_count > 0,
    ensures
        bucket == bucket_index(index as int, width as int, bucket_count as int),
        bucket < bucket_count,
{
    let quotient: usize = index / width;
    if quotient < bucket_count - 1 {
        quotient
    } else {
        bucket_count - 1
    }
}

/// Counts, for each of `bucket_count` buckets of equal width that together
/// cover the file, the resident pages that fall into it.
pub fn bucket_counts(flags: &Vec<u8>, bucket_count: usize) -> (counts: Vec<u64>)
    requires
        bucket_count > 0,
    ensures
        counts@.len() == bucket_count,
        forall|b: int|
            0 <= b < bucket_count ==> #[trigger] counts@[b] == bucket_load(
                flags@,
                ceil_div(flags@.len(), bucket_count as nat) as int,
                bucket_count as int,
                b,
            ),
{
    let width: usize = bucket_width(flags.len(), bucket_count);
    let mut counts: Vec<u64> = Vec::new();
    while counts.len() < bucket_count
        invariant
            counts@.len() <= bucket_count,
            forall|b: int| 0 <= b < counts@.len() ==> #[trigger] counts@[b] == 0,
        decreases bucket_count - counts@.len(),
    {
        counts.push(0);
    }
    let mut i: usize = 0;
    while i < flags.len()
        invariant
            i <= flags@.len(),
            bucket_count > 0,
            flags@.len() > 0 ==> width > 0,
            counts@.len() == bucket_count,
            forall|b: int|
                0 <= b < bucket_count ==> #[trigger] counts@[b] == bucket_load(
                    flags@.take(i as int),
                    width as int,
                    bucket_count as int,
                    b,
                ),
        decreases flags@.len() - i,
    {
        let ghost before = counts@;
        let ghost seen = flags@.take(i as int);
        if resident(flags[i]) {
            let bucket: usize = bucket_of(i, width, bucket_count);
            proof {
                lemma_bucket_load_bounded(seen, width as int, bucket_count as int, bucket as int);
            }
            let count: u64 = counts[bucket];
            counts.set(bucket, count + 1);
        }
        proof {
            assert(flags@.take(i + 1) =~= seen.push(flags@[i as int]));
            assert forall|b: int| 0 <= b < bucket_count implies #[trigger] counts@[b]
                == bucket_load(flags@.take(i + 1), width as int, bucket_count as int, b) by {
                lemma_bucket_load_push(seen, flags@[i as int], width as int, bucket_count as int, b);
                assert(before[b] == bucket_load(seen, width as int, bucket_count as int, b));
            }
        }
        i = i + 1;
    }
    assert(flags@.take(i as int) =~= flags@);
    counts
}

/// The share of a bucket of `capacity` pages that `count` pages make up, in
/// whole percent.
fn percent(count: u64, capacity: u64) -> (share: u64)
    requires
        count <= capacity,
    ensures
        share == percent_of(count as nat, capacity as nat),
        share <= 100,
{
    if count == 0 {
        0
    } else {
        let scaled: u128 = (count as u128) * 100;
        let share: u128 = scaled / (capacity as u128);
        assert(share <= 100) by (nonlinear_arith)
            requires
                share == scaled / (capacity as u128),
                scaled == count * 100,
                0 < count <= capacity,
        ;
        share as u64
    }
}

/// Percentages as plain numbers.
pub open spec fn percentages_of(shares: Seq<u64>) -> Seq<nat> {
    Seq::new(shares.len(), |b: int| shares[b] as nat)
}

/// Condenses the residency flags of a file into `bucket_count` percentages:
/// bucket `b` says how much of its run of pages is resident.
pub fn bucketize(flags: &Vec<u8>, bucket_count: usize) -> (shares: Vec<u64>)
    requires
        bucket_count > 0,
    ensures
        percentages_of(shares@) == bucket_percentages(flags@, bucket_count as int),
        shares@.len() == bucket_count,
        forall|b: int| 0 <= b < bucket_count ==> #[trigger] shares@[b] <= 100,
{
    let width: usize = bucket_width(flags.len(), bucket_count);
    let counts = bucket_counts(flags, bucket_count);
    let mut shares: Vec<u64> = Vec::new();
    let mut b: usize = 0;
    while b < bucket_count
        invariant
            b <= bucket_count,
            bucket_count > 0,
            counts@.len() == bucket_count,
            width == ceil_div(flags@.len(), bucket_count as nat),
            forall|c: int|
                0 <= c < bucket_count ==> #[trigger] counts@[c] == bucket_load(
                    flags@,
                    width as int,
                    bucket_count as int,
                    c,
                ),
            shares@.len() == b,
            forall|c: int|
                0 <= c < b ==> #[trigger] shares@[c] == percent_of(
                    bucket_load(flags@, width as int, bucket_count as int, c),
                    width as nat,
                ),
            forall|c: int| 0 <= c < b ==> #[trigger] shares@[c] <= 100,
        decreases bucket_count - b,
    {
        proof {
            lemma_bucket_load_within_width(flags@, bucket_count as nat, b as int);
        }
        let share: u64 = percent(counts[b], width as u64);
        shares.push(share);
        b = b + 1;
    }
    assert(percentages_of(shares@) =~= bucket_percentages(flags@, bucket_count as int));
    shares
}

} // verus!
