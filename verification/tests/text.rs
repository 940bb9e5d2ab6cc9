use ctrader_bot::text::{i64_text, is_before, parse_i64, parse_u16, to_lower};

#[test]
fn integers_are_written_and_read() {
    for i in [0, 7, -7, 10, 1_234_567_890, i64::MIN, i64::MAX] {
        assert_eq!(i64_text(i), i.to_string());
        assert_eq!(parse_i64(&i64_text(i)), Some(i));
    }
}

#[test]
fn integers_are_read_as_the_standard_library_reads_them() {
    for s in [
        "", "+", "-", "+5", "-5", "--5", "005", "-0", " 5", "5 ", "5a", "9223372036854775807",
        "9223372036854775808", "-9223372036854775808", "-9223372036854775809",
        "99999999999999999999999",
    ] {
        assert_eq!(parse_i64(s), s.parse::<i64>().ok(), "{s}");
        assert_eq!(parse_u16(s), s.parse::<u16>().ok(), "{s}");
    }
    for s in ["65535", "65536", "+65535", "-1"] {
        assert_eq!(parse_u16(s), s.parse::<u16>().ok(), "{s}");
    }
}

#[test]
fn texts_are_ordered_as_the_standard_library_orders_them() {
    let samples = ["", "a", "b", "ab", "aB", "A", "\u{e9}", "\u{10000}", "\u{ffff}", "ab\u{e9}"];
    for a in samples {
        for b in samples {
            assert_eq!(is_before(a, b), a < b, "{a} {b}");
        }
    }
}

#[test]
fn lower_case_is_ascii_only() {
    assert_eq!(to_lower("AbZ\u{c9}1"), "abz\u{c9}1");
}
