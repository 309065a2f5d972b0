use symcc_fuzzing_helper::text::{parse_u64, starts_with_after_space, zero_padded_decimal};
use symcc_fuzzing_helper::{FormatError, TestcaseDir};

#[test]
fn names_derive_from_parent_lineage() {
    let dir = TestcaseDir::new("/out/queue".to_string());
    assert_eq!(dir.path(), "/out/queue");
    assert_eq!(
        dir.testcase_name("id:000123,src:000001,op:havoc"),
        Ok("id:000000,src:000123".to_string())
    );
}

#[test]
fn numbers_follow_call_order() {
    let mut dir = TestcaseDir::new("/out/queue".to_string());
    for k in 0..12u64 {
        assert_eq!(dir.current_id(), k);
        let name = dir.testcase_name("id:000007").unwrap();
        assert_eq!(name, format!("id:{:06},src:000007", k));
        dir.advance();
    }
}

#[test]
fn missing_prefix_is_a_format_error() {
    let dir = TestcaseDir::new("/d".to_string());
    assert_eq!(dir.testcase_name("seed1"), Err(FormatError::MissingIdPrefix));
    assert_eq!(dir.testcase_name("i"), Err(FormatError::MissingIdPrefix));
    assert_eq!(dir.testcase_name("id:12345"), Err(FormatError::MissingLineageId));
}

#[test]
fn large_numbers_are_not_truncated() {
    assert_eq!(zero_padded_decimal(1234567, 6), "1234567");
    assert_eq!(zero_padded_decimal(0, 6), "000000");
    assert_eq!(zero_padded_decimal(42, 6), "000042");
    assert_eq!(zero_padded_decimal(u64::MAX, 0), u64::MAX.to_string());
}

#[test]
fn numbers_parse_like_std() {
    for s in ["0", "15106", "+7", "", "+", "-1", "12a", "18446744073709551615", "18446744073709551616"] {
        assert_eq!(parse_u64(s), s.parse::<u64>().ok(), "{}", s);
    }
}

#[test]
fn prefix_after_whitespace() {
    assert!(starts_with_after_space("  \u{3000}[STAT] SMT: x", "[STAT] SMT:"));
    assert!(!starts_with_after_space("x [STAT] SMT:", "[STAT] SMT:"));
    assert!(!starts_with_after_space("[STAT]", "[STAT] SMT:"));
}
