use transformation_engine::text::{decimal_text, matches_ignoring_case, parse_i64, parse_u16};

#[test]
fn numbers_are_written_in_decimal() {
    assert_eq!(decimal_text(0), "0");
    assert_eq!(decimal_text(7), "7");
    assert_eq!(decimal_text(10), "10");
    assert_eq!(decimal_text(1234567890), "1234567890");
    assert_eq!(decimal_text(usize::MAX), usize::MAX.to_string());
}

#[test]
fn numbers_written_in_decimal_read_back() {
    for n in [0, 9, 99, 100, 65535] {
        assert_eq!(parse_u16(&decimal_text(n)), Some(n as u16));
        assert_eq!(parse_i64(&decimal_text(n)), Some(n as i64));
    }
}

#[test]
fn small_numbers_are_read_as_the_standard_library_reads_them() {
    for text in ["", "+", "-", "-0", "-1", "0", "+0", "007", "5432", "+80", "65535", "65536", "99999999999999999999999999999999999999999999", " 1", "1 ", "1_0", "0x1", "+-1", "++1", "é"] {
        assert_eq!(parse_u16(text), text.parse::<u16>().ok(), "{}", text);
    }
}

#[test]
fn large_numbers_are_read_as_the_standard_library_reads_them() {
    for text in ["", "+", "-", "-0", "-1", "+1", "42", "-007", "9223372036854775807", "9223372036854775808", "-9223372036854775808", "-9223372036854775809", "99999999999999999999999999999999999999999999", "-+1", "1-", "٣"] {
        assert_eq!(parse_i64(text), text.parse::<i64>().ok(), "{}", text);
    }
}

#[test]
fn only_the_case_of_ascii_letters_is_ignored() {
    assert!(matches_ignoring_case("Employee.Data", "employee.DATA"));
    assert!(matches_ignoring_case("", ""));
    assert!(!matches_ignoring_case("employee.data", "employee.dat"));
    assert!(!matches_ignoring_case("É", "é"));
    assert!(!matches_ignoring_case("[", "{"));
    for (a, b) in [("aZ@", "Az@"), ("k", "\u{212a}"), ("@", "`"), ("zZ", "Zz")] {
        assert_eq!(matches_ignoring_case(a, b), a.eq_ignore_ascii_case(b));
    }
}
