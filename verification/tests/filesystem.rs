use linuxftools::error::{Error, Operation};
use linuxftools::filesystem::{
    cached_page_count, fadvise, fadvise_status, fallocate, fallocate_status, fincore, page_count,
    resident, resident_pages, Advise, AdviseRequest, AllocateRequest, FincoreStats, Platform,
    Residency,
};
use linuxftools::mmap::{Protection, Sharing};

fn flags_with_resident_prefix(total: usize, cached: usize) -> Vec<u8> {
    let mut flags = vec![0u8; total];
    for flag in flags.iter_mut().take(cached) {
        *flag = 1;
    }
    flags
}

#[test]
fn page_count_is_the_ceiling_of_the_quotient() {
    assert_eq!(page_count(0, 4096), 0);
    assert_eq!(page_count(1, 4096), 1);
    assert_eq!(page_count(4095, 4096), 1);
    assert_eq!(page_count(4096, 4096), 1);
    assert_eq!(page_count(4097, 4096), 2);
    assert_eq!(page_count(10 * 4096, 4096), 10);
    assert_eq!(page_count(u64::MAX, 4096), (u64::MAX / 4096) + 1);
    assert_eq!(page_count(u64::MAX, 1), u64::MAX);
}

#[test]
fn only_the_low_bit_marks_a_resident_page() {
    assert!(resident(1));
    assert!(resident(0xff));
    assert!(resident(3));
    assert!(!resident(0));
    assert!(!resident(2));
    assert!(!resident(0xfe));
}

#[test]
fn cached_pages_are_counted_by_their_low_bit() {
    assert_eq!(cached_page_count(&vec![]), 0);
    assert_eq!(cached_page_count(&vec![1, 0, 3, 2, 0xff, 0xfe]), 3);
}

#[test]
fn resident_pages_are_listed_in_file_order() {
    assert_eq!(resident_pages(&vec![1, 0, 3, 2, 0xff, 0xfe]), vec![0, 2, 4]);
    assert_eq!(resident_pages(&vec![0, 0]), Vec::<usize>::new());
}

#[test]
fn statistics_follow_from_size_and_flags() {
    let stats = FincoreStats::new(3 * 4096 + 1, 4096, vec![1, 0, 1, 1]);
    assert_eq!(stats.file_bytes, 3 * 4096 + 1);
    assert_eq!(stats.total_pages, 4);
    assert_eq!(stats.pages.len() as u64, stats.total_pages);
    assert_eq!(stats.cached_pages, 3);
    assert_eq!(stats.cached_bytes, 3 * 4096);
    assert_eq!(stats.pages, vec![1, 0, 1, 1]);
    assert!(stats.is_consistent());
    assert!(stats.cached_pages <= stats.total_pages);
    assert!(stats.cached_bytes <= stats.total_pages * 4096);
}

#[test]
fn statistics_with_a_wrong_count_are_not_consistent() {
    let mut stats = FincoreStats::new(2 * 4096, 4096, vec![1, 0]);
    stats.cached_pages = 2;
    assert!(!stats.is_consistent());
    let mut stats = FincoreStats::new(2 * 4096, 4096, vec![1, 0]);
    stats.total_pages = 3;
    assert!(!stats.is_consistent());
}

#[test]
fn cached_percent_is_exact_in_hundredths() {
    let stats = FincoreStats::new(4096, 4096, vec![0]);
    assert_eq!(stats.cached_percent(), 0);
    let stats = FincoreStats::new(4096, 4096, vec![1]);
    assert_eq!(stats.cached_percent(), 10000);
    let stats = FincoreStats::new(3 * 4096, 4096, vec![1, 0, 0]);
    assert_eq!(stats.cached_percent(), 3333);
    let stats = FincoreStats::new(3 * 4096, 4096, vec![1, 1, 0]);
    assert_eq!(stats.cached_percent(), 6667);
    assert_eq!(FincoreStats::empty().cached_percent(), 0);
}

#[test]
fn cached_percent_rounds_halves_to_even() {
    // 1 of 32 pages is 3.125 percent, 3 of 32 pages 9.375 percent.
    let stats = FincoreStats::new(32 * 4096, 4096, flags_with_resident_prefix(32, 1));
    assert_eq!(stats.cached_percent(), 312);
    let stats = FincoreStats::new(32 * 4096, 4096, flags_with_resident_prefix(32, 3));
    assert_eq!(stats.cached_percent(), 938);
}

#[test]
fn scenario_one_page_file_evicted_from_cache() {
    let file_bytes = 4096;
    let start = fincore(Platform::Linux, Ok(file_bytes), 4096).unwrap();
    let mapping = match start {
        Residency::Pending(mapping) => mapping,
        Residency::Known(_) => panic!("a file with content has to be mapped"),
    };
    let probing = mapping.mapped(Ok(0x10000)).unwrap();
    let buffer = probing.buffer();
    assert_eq!(buffer, vec![0u8]);
    let releasing = probing.probed(Ok(buffer));
    let stats = releasing.released(Ok(())).unwrap();
    assert_eq!(stats.total_pages, 1);
    assert_eq!(stats.cached_pages, 0);
    assert_eq!(stats.cached_bytes, 0);
    assert_eq!(stats.cached_percent(), 0);
}

#[test]
fn scenario_half_resident_file_is_fifty_percent_cached() {
    let flags = flags_with_resident_prefix(1000, 500);
    let stats = FincoreStats::new(1000 * 4096, 4096, flags);
    assert_eq!(stats.total_pages, 1000);
    assert_eq!(stats.cached_pages, 500);
    assert_eq!(stats.cached_bytes, 500 * 4096);
    assert_eq!(stats.cached_percent(), 5000);
}

#[test]
fn empty_file_needs_no_mapping() {
    match fincore(Platform::Linux, Ok(0), 4096).unwrap() {
        Residency::Known(stats) => {
            assert_eq!(stats.file_bytes, 0);
            assert_eq!(stats.total_pages, 0);
            assert_eq!(stats.cached_pages, 0);
            assert_eq!(stats.cached_bytes, 0);
            assert!(stats.pages.is_empty());
        }
        Residency::Pending(_) => panic!("an empty file must not be mapped"),
    }
}

#[test]
fn query_maps_the_whole_file_without_access() {
    let mapping = match fincore(Platform::Linux, Ok(10_000), 4096).unwrap() {
        Residency::Pending(mapping) => mapping,
        Residency::Known(_) => panic!("a file with content has to be mapped"),
    };
    let request = mapping.request();
    assert_eq!(request.aligned_offset(), 0);
    assert_eq!(request.aligned_length(), 10_000);
    assert_eq!(request.protection(), Protection::NoAccess);
    assert_eq!(request.sharing(), Sharing::Shared);
    let probing = mapping.mapped(Ok(0x7f00_0000)).unwrap();
    assert_eq!(probing.addr(), 0x7f00_0000);
    assert_eq!(probing.length(), 10_000);
    assert_eq!(probing.buffer(), vec![0u8; 3]);
    let releasing = probing.probed(Ok(vec![1, 1, 0]));
    assert_eq!(releasing.mapped_range(), (0x7f00_0000, 10_000));
    let stats = releasing.released(Ok(())).unwrap();
    assert_eq!(stats.file_bytes, 10_000);
    assert_eq!(stats.total_pages, 3);
    assert_eq!(stats.cached_pages, 2);
    assert_eq!(stats.cached_bytes, 8192);
    assert_eq!(stats.pages, vec![1, 1, 0]);
}

#[test]
fn identical_answers_give_identical_statistics() {
    let first = FincoreStats::new(10_000, 4096, vec![1, 0, 1]);
    let second = FincoreStats::new(10_000, 4096, vec![1, 0, 1]);
    assert_eq!(first.file_bytes, second.file_bytes);
    assert_eq!(first.total_pages, second.total_pages);
    assert_eq!(first.cached_pages, second.cached_pages);
    assert_eq!(first.cached_bytes, second.cached_bytes);
    assert_eq!(first.pages, second.pages);
}

#[test]
fn stat_failure_is_reported_as_such() {
    let error = fincore(Platform::Linux, Err(13), 4096).err();
    assert_eq!(error, Some(Error::OsError { operation: Operation::Stat, code: 13 }));
}

#[test]
fn mapping_failure_is_reported_as_such() {
    let mapping = match fincore(Platform::Linux, Ok(1), 4096).unwrap() {
        Residency::Pending(mapping) => mapping,
        Residency::Known(_) => panic!("a file with content has to be mapped"),
    };
    let error = mapping.mapped(Err(19)).err();
    assert_eq!(error, Some(Error::OsError { operation: Operation::Mmap, code: 19 }));
}

#[test]
fn query_failure_is_reported_after_the_release() {
    let mapping = match fincore(Platform::Linux, Ok(4097), 4096).unwrap() {
        Residency::Pending(mapping) => mapping,
        Residency::Known(_) => panic!("a file with content has to be mapped"),
    };
    let releasing = mapping.mapped(Ok(0x4000)).unwrap().probed(Err(12));
    assert_eq!(releasing.mapped_range(), (0x4000, 4097));
    let outcome = releasing.released(Ok(()));
    assert_eq!(outcome.err(), Some(Error::OsError { operation: Operation::Mincore, code: 12 }));
}

#[test]
fn release_hands_the_outcome_on_unchanged() {
    let mapping = match fincore(Platform::Linux, Ok(4096), 4096).unwrap() {
        Residency::Pending(mapping) => mapping,
        Residency::Known(_) => panic!("a file with content has to be mapped"),
    };
    let releasing = mapping.mapped(Ok(0x4000)).unwrap().probed(Ok(vec![1]));
    assert_eq!(releasing.mapped_range(), (0x4000, 4096));
    let stats = releasing.released(Ok(())).unwrap();
    assert_eq!(stats.cached_pages, 1);
    assert_eq!(stats.cached_bytes, 4096);
}

#[test]
fn other_platforms_support_none_of_the_operations() {
    assert_eq!(fincore(Platform::Other, Ok(4096), 4096).err(), Some(Error::Unsupported));
    assert_eq!(fincore(Platform::Other, Ok(0), 4096).err(), Some(Error::Unsupported));
    assert_eq!(
        fadvise(Platform::Other, Advise::Normal, None, None),
        Err(Error::Unsupported)
    );
    assert_eq!(fallocate(Platform::Other, 10), Err(Error::Unsupported));
}

#[test]
fn advice_defaults_to_the_whole_file() {
    assert_eq!(
        fadvise(Platform::Linux, Advise::DontNeed, None, None),
        Ok(AdviseRequest { advise: Advise::DontNeed, offset: 0, len: 0 })
    );
    assert_eq!(
        fadvise(Platform::Linux, Advise::WillNeed, Some(4096), Some(8192)),
        Ok(AdviseRequest { advise: Advise::WillNeed, offset: 4096, len: 8192 })
    );
}

#[test]
fn allocation_keeps_the_file_size() {
    assert_eq!(
        fallocate(Platform::Linux, 1 << 20),
        Ok(AllocateRequest { keep_size: true, offset: 0, len: 1 << 20 })
    );
}

#[test]
fn advice_is_written_by_its_name() {
    assert_eq!(Advise::Normal.to_string(), "NORMAL");
    assert_eq!(Advise::Sequential.to_string(), "SEQUENTIAL");
    assert_eq!(Advise::Random.to_string(), "RANDOM");
    assert_eq!(Advise::WillNeed.to_string(), "WILLNEED");
    assert_eq!(Advise::DontNeed.to_string(), "DONTNEED");
    assert_eq!(Advise::NoReuse.to_string(), "NOREUSE");
}

#[test]
fn returned_error_number_is_the_code() {
    assert_eq!(Error::check(Operation::Fadvise, 0), Ok(()));
    assert_eq!(
        Error::check(Operation::Fadvise, 9),
        Err(Error::OsError { operation: Operation::Fadvise, code: 9 })
    );
    assert_eq!(fadvise_status(0), Ok(()));
    assert_eq!(
        fadvise_status(22),
        Err(Error::OsError { operation: Operation::Fadvise, code: 22 })
    );
}

#[test]
fn failed_call_carries_the_platform_error_number() {
    assert_eq!(Error::check_errno(Operation::Fallocate, 0, 28), Ok(()));
    assert_eq!(
        Error::check_errno(Operation::Fallocate, -1, 28),
        Err(Error::OsError { operation: Operation::Fallocate, code: 28 })
    );
    assert_eq!(fallocate_status(0, 95), Ok(()));
    assert_eq!(
        fallocate_status(-1, 95),
        Err(Error::OsError { operation: Operation::Fallocate, code: 95 })
    );
    assert_eq!(
        fallocate_status(-1, 27),
        Err(Error::OsError { operation: Operation::Fallocate, code: 27 })
    );
}
