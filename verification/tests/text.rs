use fds::text::decimal_string;

#[test]
fn decimal_matches_to_string() {
    for n in [0u128, 7, 9, 10, 11, 99, 100, 1234567890, 1700000000000, u64::MAX as u128, u128::MAX] {
        assert_eq!(decimal_string(n), n.to_string());
    }
}
