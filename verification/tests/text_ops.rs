use pinepods_pages::text::{
    chars_of, compare_chars, decimal_chars, find_first, first_word_chars, int_to_string, join_chars,
    join_strings, lines_chars, parse_bool, parse_i32, replace, split_chars, str_eq, trim,
    Comparison, IntErrorKind,
};

fn lines_of(s: &str) -> Vec<String> {
    lines_chars(&chars_of(s)).into_iter().map(|l| l.into_iter().collect()).collect()
}

#[test]
fn trim_removes_unicode_white_space_at_both_ends() {
    assert_eq!(trim("  hello world \t\n"), "hello world");
    assert_eq!(trim("\u{3000}x\u{a0}"), "x");
    assert_eq!(trim("   "), "");
    assert_eq!(trim(""), "");
}

#[test]
fn replace_is_left_to_right_and_non_overlapping() {
    assert_eq!(replace("aaa", "aa", "b"), "ba");
    assert_eq!(replace("a,b,c", ",", "."), "a.b.c");
    assert_eq!(replace("none here", "xyz", "!"), "none here");
    assert_eq!(replace("<</v>/v>", "</v>", ""), "</v>");
}

#[test]
fn replace_without_occurrence_gives_text_back() {
    let s = "http://localhost:8040/episode";
    assert_eq!(replace(s, "http://tauri.localhost", "https://pods.example"), s);
}

#[test]
fn lines_split_like_str_lines() {
    assert_eq!(lines_of("a\nb\r\n\nc\n"), vec!["a", "b", "", "c"]);
    assert_eq!(lines_of("one"), vec!["one"]);
    assert!(lines_of("").is_empty());
    assert_eq!(lines_of("x\r"), vec!["x\r"]);
    assert_eq!(lines_of("x\r"), "x\r".lines().collect::<Vec<_>>());
}

#[test]
fn split_keeps_empty_pieces() {
    let parts: Vec<String> = split_chars(&chars_of("a::b"), ':').into_iter().map(|p| p.into_iter().collect()).collect();
    assert_eq!(parts, vec!["a", "", "b"]);
    let parts: Vec<String> = split_chars(&chars_of(""), ':').into_iter().map(|p| p.into_iter().collect()).collect();
    assert_eq!(parts, vec![""]);
}

#[test]
fn join_puts_separator_between_parts() {
    let parts = vec!["Tech".to_string(), "News".to_string(), "Comedy".to_string()];
    assert_eq!(join_strings(&parts, ", "), "Tech, News, Comedy");
    assert_eq!(join_strings(&Vec::new(), ", "), "");
    let cs = vec![chars_of("a"), chars_of("b")];
    let joined: String = join_chars(&cs, &chars_of("--")).into_iter().collect();
    assert_eq!(joined, "a--b");
}

#[test]
fn first_word_skips_leading_space() {
    let w: String = first_word_chars(&chars_of("  00:00:04.000 align:start")).into_iter().collect();
    assert_eq!(w, "00:00:04.000");
    let w: String = first_word_chars(&chars_of("   ")).into_iter().collect();
    assert_eq!(w, "");
}

#[test]
fn find_first_gives_first_occurrence() {
    assert_eq!(find_first(&chars_of("a --> b --> c"), &chars_of("-->")), Some(2));
    assert_eq!(find_first(&chars_of("no arrow"), &chars_of("-->")), None);
}

#[test]
fn compare_is_by_code_point_then_length() {
    assert_eq!(compare_chars(&chars_of("abc"), &chars_of("abd")), Comparison::Less);
    assert_eq!(compare_chars(&chars_of("ab"), &chars_of("abc")), Comparison::Less);
    assert_eq!(compare_chars(&chars_of("b"), &chars_of("abc")), Comparison::Greater);
    assert_eq!(compare_chars(&chars_of("Z"), &chars_of("a")), Comparison::Less);
    assert_eq!(compare_chars(&chars_of("same"), &chars_of("same")), Comparison::Equal);
    assert!(str_eq("same", "same"));
    assert!(!str_eq("same", "Same"));
}

#[test]
fn decimal_text_of_integers() {
    assert_eq!(int_to_string(0), "0");
    assert_eq!(int_to_string(-42), "-42");
    assert_eq!(int_to_string(i64::MIN), "-9223372036854775808");
    let d: String = decimal_chars(i64::MAX).into_iter().collect();
    assert_eq!(d, "9223372036854775807");
}

#[test]
fn parse_i32_accepts_what_std_accepts() {
    assert_eq!(parse_i32("42"), Ok(42));
    assert_eq!(parse_i32("+7"), Ok(7));
    assert_eq!(parse_i32("-0"), Ok(0));
    assert_eq!(parse_i32("2147483647"), Ok(i32::MAX));
    assert_eq!(parse_i32("-2147483648"), Ok(i32::MIN));
    assert_eq!(parse_i32("007"), Ok(7));
}

#[test]
fn parse_i32_error_kinds() {
    assert_eq!(parse_i32(""), Err(IntErrorKind::Empty));
    assert_eq!(parse_i32("+"), Err(IntErrorKind::InvalidDigit));
    assert_eq!(parse_i32("-"), Err(IntErrorKind::InvalidDigit));
    assert_eq!(parse_i32("12a"), Err(IntErrorKind::InvalidDigit));
    assert_eq!(parse_i32(" 5"), Err(IntErrorKind::InvalidDigit));
    assert_eq!(parse_i32("2147483648"), Err(IntErrorKind::PosOverflow));
    assert_eq!(parse_i32("-2147483649"), Err(IntErrorKind::NegOverflow));
}

#[test]
fn parse_i32_agrees_with_std() {
    for s in ["", "+", "-", "0", "-12", "+12", "x1", "1x", "99999999999", "-99999999999", "2147483647", "-2147483648"] {
        let ours = parse_i32(s);
        let std = s.parse::<i32>();
        match (ours, std) {
            (Ok(a), Ok(b)) => assert_eq!(a, b),
            (Err(_), Err(_)) => {},
            other => panic!("disagree on {:?}: {:?}", s, other),
        }
    }
}

#[test]
fn decimal_then_parse_gives_the_number_back() {
    for n in [0i32, 1, -1, 9, 10, 12345, -987654, i32::MAX, i32::MIN] {
        let text = int_to_string(n as i64);
        assert_eq!(parse_i32(&text), Ok(n));
    }
}

#[test]
fn parse_bool_only_exact_words() {
    assert_eq!(parse_bool("true"), Some(true));
    assert_eq!(parse_bool("false"), Some(false));
    assert_eq!(parse_bool("True"), None);
    assert_eq!(parse_bool("1"), None);
    assert_eq!(parse_bool(""), None);
}
