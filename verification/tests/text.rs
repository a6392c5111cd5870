use linuxftools::text::{decimal, pad_left, pad_right};

#[test]
fn decimal_writes_numbers_as_std_does() {
    for n in [0u128, 1, 9, 10, 11, 99, 100, 101, 4096, 65535, 1_000_000_007] {
        assert_eq!(decimal(n), n.to_string());
    }
    assert_eq!(decimal(u64::MAX as u128), u64::MAX.to_string());
    assert_eq!(decimal(u128::MAX), u128::MAX.to_string());
}

#[test]
fn pad_left_fills_the_front() {
    assert_eq!(pad_left("42", 5), "   42");
    assert_eq!(pad_left("42", 2), "42");
    assert_eq!(pad_left("12345", 3), "12345");
    assert_eq!(pad_left("", 3), "   ");
}

#[test]
fn pad_right_fills_the_end() {
    assert_eq!(pad_right("ab", 5), "ab   ");
    assert_eq!(pad_right("ab", 2), "ab");
    assert_eq!(pad_right("abcdef", 3), "abcdef");
}

#[test]
fn padding_counts_characters_not_bytes() {
    assert_eq!(pad_left("é", 3), format!("{:>3}", "é"));
    assert_eq!(pad_right("日本", 4), format!("{:<4}", "日本"));
}
