use read_dedup::report::{decimal_string, mark_member};

#[test]
fn decimal_string_renders_counts() {
    assert_eq!(decimal_string(0), "0");
    assert_eq!(decimal_string(7), "7");
    assert_eq!(decimal_string(9), "9");
    assert_eq!(decimal_string(10), "10");
    assert_eq!(decimal_string(101), "101");
    assert_eq!(decimal_string(1234567890), "1234567890");
    assert_eq!(decimal_string(u64::MAX), "18446744073709551615");
}

#[test]
fn decimal_string_agrees_with_the_standard_rendering() {
    let mut n: u64 = 1;
    for _ in 0..64 {
        assert_eq!(decimal_string(n), n.to_string());
        assert_eq!(decimal_string(n - 1), (n - 1).to_string());
        n = n.wrapping_mul(2);
    }
}

#[test]
fn mark_member_appends_the_marker_to_flipped_reads() {
    assert_eq!(mark_member("id_b".to_string(), true), "id_b (rc)");
    assert_eq!(mark_member("id_b".to_string(), false), "id_b");
    assert_eq!(mark_member(String::new(), true), " (rc)");
}
