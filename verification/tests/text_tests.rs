use tipjar::text::{concat3, decimal_text, same_text, text_contains};

#[test]
fn substring_search() {
    assert!(text_contains("get_leaderboard", "leaderboard"));
    assert!(text_contains("split", "split"));
    assert!(text_contains("abc", ""));
    assert!(!text_contains("", "a"));
    assert!(!text_contains("tip_spl", "split"));
    assert!(text_contains("héllo wörld", "ö"));
}

#[test]
fn decimal_and_concatenation() {
    assert_eq!(decimal_text(0), "0");
    assert_eq!(decimal_text(6_000_000), "6000000");
    assert_eq!(decimal_text(u64::MAX), u64::MAX.to_string());
    assert_eq!(concat3("tip", " (", "cold"), "tip (cold");
    assert!(same_text("a", "a"));
    assert!(!same_text("a", "A"));
}
