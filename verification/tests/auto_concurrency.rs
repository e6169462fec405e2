use hostpilot::auto_concurrency::choose_auto_concurrency;

#[test]
fn test_choose_zero_files() {
    assert_eq!(choose_auto_concurrency(0, 0), 1);
}

#[test]
fn test_choose_small_files() {
    let w = choose_auto_concurrency(16, 16 * 1024);
    assert!((3..=16).contains(&w));
}

#[test]
fn test_choose_large_avg() {
    let w = choose_auto_concurrency(9, 9 * 20 * 1024 * 1024);
    assert!(w <= 4);
}

#[test]
fn auto_concurrency_test_choose_zero_files() {
    assert_eq!(choose_auto_concurrency(0, 0), 1);
}

#[test]
fn auto_concurrency_test_choose_small_files() {
    let w = choose_auto_concurrency(16, 16 * 1024);
    assert!((3..=16).contains(&w));
}

#[test]
fn auto_concurrency_test_choose_large_avg() {
    let w = choose_auto_concurrency(9, 9 * 20 * 1024 * 1024);
    assert!(w <= 4);
}

#[test]
fn roots_are_rounded_up() {
    for n in 1usize..3000 {
        let root = (n as f64).sqrt().ceil() as usize;
        assert_eq!(choose_auto_concurrency(n, 0), root.clamp(1, 32));
    }
    assert_eq!(choose_auto_concurrency(50000, 1), 32);
    assert_eq!(choose_auto_concurrency(50001, u64::MAX), 32);
}

#[test]
fn large_files_get_four_at_most() {
    let ten = 10 * 1024 * 1024u64;
    assert_eq!(choose_auto_concurrency(100, 100 * ten), 10);
    assert_eq!(choose_auto_concurrency(100, 100 * (ten + 1)), 4);
    assert_eq!(choose_auto_concurrency(4, 4 * (ten + 1)), 2);
}
