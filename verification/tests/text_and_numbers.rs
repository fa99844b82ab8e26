use html_template_bench::decimal::{decimal_string, parse_usize, IntErrorKind};
use html_template_bench::text::{
    count_chars_up_to, first_diff_byte_index, preview_for_log, repeated, str_eq,
};

#[test]
fn decimal_string_writes_digits() {
    assert_eq!(decimal_string(0), "0");
    assert_eq!(decimal_string(7), "7");
    assert_eq!(decimal_string(42), "42");
    assert_eq!(decimal_string(1000), "1000");
    assert_eq!(decimal_string(u128::MAX), u128::MAX.to_string());
}

#[test]
fn parse_usize_reads_decimal_text() {
    assert_eq!(parse_usize("60"), Ok(60));
    assert_eq!(parse_usize("+12"), Ok(12));
    assert_eq!(parse_usize("007"), Ok(7));
    assert_eq!(parse_usize(&usize::MAX.to_string()), Ok(usize::MAX));
}

#[test]
fn parse_usize_errors_match_the_standard_library() {
    let cases = [
        "", "+", "-", "-5", "12a", "1 ", " 1", "99999999999999999999999", "9999999999999999999999a",
        "1a99999999999999999999999", "+0", "٣",
    ];
    for case in cases {
        let expected = case.parse::<usize>().map_err(|e| match e.kind() {
            std::num::IntErrorKind::Empty => IntErrorKind::Empty,
            std::num::IntErrorKind::InvalidDigit => IntErrorKind::InvalidDigit,
            std::num::IntErrorKind::PosOverflow => IntErrorKind::PosOverflow,
            other => panic!("unexpected kind {other:?}"),
        });
        assert_eq!(parse_usize(case), expected, "case {case:?}");
    }
    assert_eq!(parse_usize(""), Err(IntErrorKind::Empty));
    assert_eq!(parse_usize("+"), Err(IntErrorKind::InvalidDigit));
    assert_eq!(parse_usize("99999999999999999999999"), Err(IntErrorKind::PosOverflow));
}

#[test]
fn decimal_text_reads_back() {
    for n in [0usize, 1, 9, 10, 60, 12345, usize::MAX] {
        assert_eq!(parse_usize(&decimal_string(n as u128)), Ok(n));
    }
}

#[test]
fn repeated_writes_the_snippet_n_times() {
    assert_eq!(repeated("ab", 3), "ababab");
    assert_eq!(repeated("ab", 0), "");
    assert_eq!(repeated("", 5), "");
    assert_eq!(repeated("<li>x</li>", 2), "<li>x</li><li>x</li>");
    let joined = repeated("xy", 2) + &repeated("xy", 3);
    assert_eq!(joined, repeated("xy", 5));
    assert_eq!(repeated("é", 4).chars().count(), 4);
}

#[test]
fn preview_keeps_the_first_characters() {
    assert_eq!(preview_for_log("héllo", 2), "hé");
    assert_eq!(preview_for_log("héllo", 200), "héllo");
    assert_eq!(preview_for_log("abc", 0), "");
    assert_eq!(preview_for_log("", 3), "");
    assert_eq!(count_chars_up_to("héllo", 3), 3);
    assert_eq!(count_chars_up_to("hé", 3), 2);
}

#[test]
fn first_diff_byte_index_finds_the_first_difference() {
    assert_eq!(first_diff_byte_index("abc", "abc"), None);
    assert_eq!(first_diff_byte_index("", ""), None);
    assert_eq!(first_diff_byte_index("abc", "abd"), Some(2));
    assert_eq!(first_diff_byte_index("ab", "abc"), Some(2));
    assert_eq!(first_diff_byte_index("abc", "ab"), Some(2));
    assert_eq!(first_diff_byte_index("", "a"), Some(0));
    // "é" is c3 a9 and "è" is c3 a8: they differ at the second byte.
    assert_eq!(first_diff_byte_index("é", "è"), Some(1));
    assert_eq!(first_diff_byte_index("°x", "°y"), Some(2));
}

#[test]
fn str_eq_compares_texts() {
    assert!(str_eq("--loops", "--loops"));
    assert!(!str_eq("--loops", "--loop"));
    assert!(!str_eq("é", "è"));
    assert!(str_eq("", ""));
}

#[test]
fn a_common_prefix_moves_the_first_difference() {
    for (left, right) in [("abc", "abd"), ("é", "è"), ("ab", "abc"), ("same", "same")] {
        let base = first_diff_byte_index(left, right);
        for prefix in ["", "x", "°°", "<script>"] {
            let shifted = first_diff_byte_index(&(prefix.to_string() + left), &(prefix.to_string() + right));
            assert_eq!(shifted, base.map(|i| i + prefix.len()), "{prefix:?} {left:?} {right:?}");
        }
    }
}
