use b8t_core::numtext::{i64_text, parse_i32, parse_i64, u128_text, u64_text};

fn text(v: Vec<char>) -> String {
    v.into_iter().collect()
}

#[test]
fn parsing_agrees_with_std() {
    let samples = [
        "0", "7", "-7", "+7", "", "-", "+", " 1", "1 ", "1_000", "12a", "007", "-0",
        "9223372036854775807", "9223372036854775808", "-9223372036854775808",
        "-9223372036854775809", "2147483647", "2147483648", "-2147483648", "-2147483649",
        "99999999999999999999999", "١٢", "+-1",
    ];
    for s in samples {
        assert_eq!(parse_i64(s), s.parse::<i64>().ok(), "{:?}", s);
        assert_eq!(parse_i32(s), s.parse::<i32>().ok(), "{:?}", s);
    }
}

#[test]
fn formatting_agrees_with_std() {
    for x in [0i64, 1, -1, 42, -100, i64::MAX, i64::MIN, 1_000_000] {
        assert_eq!(text(i64_text(x)), x.to_string());
        assert_eq!(parse_i64(&text(i64_text(x))), Some(x));
    }
    for n in [0u64, 9, 10, u64::MAX] {
        assert_eq!(text(u64_text(n)), n.to_string());
    }
    assert_eq!(text(u128_text(u128::MAX)), u128::MAX.to_string());
}
