use hyprmwh::text::{
    chars_of, contains_chars, i64_text, parse_i64, parse_usize, same_text, string_of, trim,
    usize_text,
};

#[test]
fn decimal_text_of_numbers() {
    assert_eq!(usize_text(0), "0");
    assert_eq!(usize_text(7), "7");
    assert_eq!(usize_text(120), "120");
    assert_eq!(usize_text(usize::MAX), usize::MAX.to_string());
    assert_eq!(i64_text(-42), "-42");
    assert_eq!(i64_text(i64::MIN), "-9223372036854775808");
    assert_eq!(i64_text(i64::MAX), "9223372036854775807");
}

#[test]
fn parse_usize_like_std() {
    for s in ["0", "12", "+7", "007", "", "+", "-1", "1a", " 1", "18446744073709551615", "18446744073709551616", "99999999999999999999999"] {
        assert_eq!(parse_usize(s), s.parse::<usize>().ok(), "input {:?}", s);
    }
}

#[test]
fn parse_i64_like_std() {
    for s in ["0", "-0", "-12", "+12", "-", "+", "", "--1", "9223372036854775807", "9223372036854775808", "-9223372036854775808", "-9223372036854775809", "3x"] {
        assert_eq!(parse_i64(s), s.parse::<i64>().ok(), "input {:?}", s);
    }
}

#[test]
fn decimal_reads_back() {
    for n in [0usize, 1, 9, 10, 99, 4096, usize::MAX] {
        assert_eq!(parse_usize(&usize_text(n)), Some(n));
    }
    for n in [0i64, -1, 17, i64::MIN, i64::MAX] {
        assert_eq!(parse_i64(&i64_text(n)), Some(n));
    }
}

#[test]
fn trim_like_std() {
    for s in ["", "   ", "  q  ", "\tq!\n", "\u{a0}help\u{3000}", "a b", "\u{85}x\u{2028}"] {
        assert_eq!(trim(s), s.trim(), "input {:?}", s);
        assert_eq!(trim(&trim(s)), trim(s));
    }
}

#[test]
fn search_in_characters() {
    let hay = chars_of("firefox");
    assert!(contains_chars(&hay, &chars_of("fox")));
    assert!(contains_chars(&hay, &chars_of("")));
    assert!(contains_chars(&hay, &chars_of("firefox")));
    assert!(!contains_chars(&hay, &chars_of("foxy")));
    assert!(!contains_chars(&hay, &chars_of("xf")));
}

#[test]
fn characters_round_trip() {
    let s = "héllo ─ 世界";
    assert_eq!(string_of(&chars_of(s)), s);
    assert!(same_text(s, "héllo ─ 世界"));
    assert!(!same_text(s, "héllo"));
}
