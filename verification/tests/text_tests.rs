use vw_lib::text::{dec_string, dec_string_u64, find_byte_from, parse_dec_bytes, str_eq_ignore_ascii_case};

#[test]
fn decimal_rendering_is_exact() {
    assert_eq!(dec_string(0), "0");
    assert_eq!(dec_string(7), "7");
    assert_eq!(dec_string(10), "10");
    assert_eq!(dec_string(90210), "90210");
    assert_eq!(dec_string_u64(u64::MAX), "18446744073709551615");
}

#[test]
fn case_insensitive_comparison_folds_ascii_only() {
    assert!(str_eq_ignore_ascii_case("STD_LOGIC", "std_logic"));
    assert!(str_eq_ignore_ascii_case("Std_Logic_Vector", "std_logic_vector"));
    assert!(!str_eq_ignore_ascii_case("std_logic", "std_logic_vector"));
    assert!(!str_eq_ignore_ascii_case("std_logi", "std_logic"));
    // the bracket/brace pair differs by the same bit as a letter pair
    // but must not be folded
    assert!(!str_eq_ignore_ascii_case("[", "{"));
}

#[test]
fn decimal_parsing_accepts_digit_runs_only() {
    let v = b"x123y".to_vec();
    assert_eq!(parse_dec_bytes(&v, 1, 4), Some(123));
    assert_eq!(parse_dec_bytes(&v, 0, 4), None); // leading 'x'
    assert_eq!(parse_dec_bytes(&v, 1, 5), None); // trailing 'y'
    assert_eq!(parse_dec_bytes(&v, 2, 2), None); // empty range
}

#[test]
fn decimal_parsing_rejects_values_beyond_machine_range() {
    let v = b"18446744073709551615".to_vec(); // usize::MAX on this target
    assert_eq!(parse_dec_bytes(&v, 0, v.len()), Some(usize::MAX));
    let w = b"18446744073709551616".to_vec();
    assert_eq!(parse_dec_bytes(&w, 0, w.len()), None);
}

#[test]
fn byte_search_finds_the_first_occurrence() {
    let v = b"ab\ncd\n".to_vec();
    assert_eq!(find_byte_from(&v, 0, 6, b'\n'), Some(2));
    assert_eq!(find_byte_from(&v, 3, 6, b'\n'), Some(5));
    assert_eq!(find_byte_from(&v, 3, 5, b'\n'), None);
}
