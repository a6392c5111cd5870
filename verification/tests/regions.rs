use linuxftools::regions::{bucket_counts, bucket_of, bucket_width, bucketize};

#[test]
fn bucket_width_is_the_ceiling_of_pages_per_bucket() {
    assert_eq!(bucket_width(1000, 100), 10);
    assert_eq!(bucket_width(1001, 100), 11);
    assert_eq!(bucket_width(99, 100), 1);
    assert_eq!(bucket_width(1, 160), 1);
    assert_eq!(bucket_width(0, 160), 0);
    assert_eq!(bucket_width(usize::MAX, 1), usize::MAX);
}

#[test]
fn every_page_has_a_bucket_that_exists() {
    for bucket_count in [1usize, 2, 3, 7, 100, 160] {
        for total in [1usize, 2, 5, 99, 100, 101, 1000, 1001] {
            let width = bucket_width(total, bucket_count);
            for index in 0..total {
                let bucket = bucket_of(index, width, bucket_count);
                assert!(bucket < bucket_count);
                assert_eq!(bucket, index / width);
            }
        }
    }
}

#[test]
fn last_bucket_takes_the_indices_beyond() {
    assert_eq!(bucket_of(0, 10, 100), 0);
    assert_eq!(bucket_of(9, 10, 100), 0);
    assert_eq!(bucket_of(10, 10, 100), 1);
    assert_eq!(bucket_of(989, 10, 100), 98);
    assert_eq!(bucket_of(999, 10, 100), 99);
    assert_eq!(bucket_of(1000, 10, 100), 99);
    assert_eq!(bucket_of(usize::MAX, 10, 100), 99);
    assert_eq!(bucket_of(5, 1, 1), 0);
}

#[test]
fn bucket_counts_add_up_to_the_resident_pages() {
    let flags: Vec<u8> = (0..1003u32).map(|i| if i % 3 == 0 { 1 } else { 0 }).collect();
    let resident = flags.iter().filter(|flag| **flag & 1 == 1).count() as u64;
    for bucket_count in [1usize, 7, 100, 160, 2000] {
        let counts = bucket_counts(&flags, bucket_count);
        assert_eq!(counts.len(), bucket_count);
        assert_eq!(counts.iter().sum::<u64>(), resident);
    }
}

#[test]
fn bucket_counts_count_by_position() {
    let flags = vec![1u8, 1, 0, 0, 1, 0, 1];
    assert_eq!(bucket_counts(&flags, 3), vec![2, 1, 1]);
    assert_eq!(bucket_counts(&flags, 1), vec![4]);
    assert_eq!(bucket_counts(&flags, 7), vec![1, 1, 0, 0, 1, 0, 1]);
}

#[test]
fn bucketize_gives_whole_percent_rounded_down() {
    let flags = vec![1u8, 1, 0, 0, 1, 0, 1];
    assert_eq!(bucketize(&flags, 3), vec![66, 33, 33]);
    assert_eq!(bucketize(&flags, 1), vec![57]);
    assert_eq!(bucketize(&flags, 7), vec![100, 100, 0, 0, 100, 0, 100]);
}

#[test]
fn bucketize_of_no_pages_is_all_zero() {
    assert_eq!(bucketize(&vec![], 4), vec![0, 0, 0, 0]);
    assert_eq!(bucket_counts(&vec![], 2), vec![0, 0]);
}

#[test]
fn bucketize_leaves_trailing_buckets_empty_for_short_files() {
    assert_eq!(bucketize(&vec![1, 0, 1], 5), vec![100, 0, 100, 0, 0]);
}

#[test]
fn bucketize_ignores_all_bits_but_the_lowest() {
    assert_eq!(bucketize(&vec![2, 3, 0xfe, 0xff], 2), vec![50, 50]);
}

#[test]
fn scenario_half_resident_file_fills_the_first_half_of_the_buckets() {
    let mut flags = vec![0u8; 1000];
    for flag in flags.iter_mut().take(500) {
        *flag = 1;
    }
    let shares = bucketize(&flags, 100);
    assert_eq!(shares.len(), 100);
    for (bucket, share) in shares.iter().enumerate() {
        assert_eq!(*share, if bucket < 50 { 100 } else { 0 });
    }
    let counts = bucket_counts(&flags, 100);
    assert_eq!(counts.iter().sum::<u64>(), 500);
}

#[test]
fn bucketize_is_deterministic_and_leaves_its_input_alone() {
    let flags = vec![1u8, 0, 1, 1, 0, 0, 1, 0, 1];
    let before = flags.clone();
    let first = bucketize(&flags, 4);
    let second = bucketize(&flags, 4);
    assert_eq!(first, second);
    assert_eq!(flags, before);
}
