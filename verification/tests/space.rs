use music_groomer::apply::space::required_space;

#[test]
fn estimate_always_includes_a_small_margin() {
    assert_eq!(required_space(1024), 16 * 1024 * 1024 + 1024);
    assert!(required_space(u64::MAX) > 0);
}

#[test]
fn large_content_reserves_one_percent() {
    assert_eq!(required_space(10_000_000_000), 10_100_000_000);
    assert_eq!(required_space(u64::MAX), u64::MAX);
}
