use amberguard::numbers::{i32_text, parse_i32, parse_i64, parse_u32, parse_u64, u64_text, usize_text};
use amberguard::order::order_desc;
use amberguard::score::{clamp_score, rank_of_whole, score_of_whole, Rank};
use amberguard::text::{
    cat, contains, contains_char, eq_ignore_case, find_class, from_chars, is_control,
    is_whitespace, join_from, keep_nonempty, len_bytes, lines, list_has, replace, skip_chars,
    split_class, splitn_class, starts_with, str_eq, to_ascii_lower, to_chars, trim, trim_class,
    trim_end, words, Class,
};

fn all_chars() -> impl Iterator<Item = char> {
    (0..=0x10ffffu32).filter_map(char::from_u32)
}

#[test]
fn character_classes_agree_with_std() {
    for c in all_chars() {
        assert_eq!(is_whitespace(c), c.is_whitespace(), "{c:?}");
        assert_eq!(is_control(c), c.is_control(), "{c:?}");
    }
}

#[test]
fn lengths_count_bytes() {
    assert_eq!(len_bytes(""), 0);
    assert_eq!(len_bytes("abc"), 3);
    assert_eq!(len_bytes("é海😀"), 9);
}

#[test]
fn trimming_agrees_with_std() {
    for s in ["", "  ", " a b ", "\u{3000}海\u{a0}", "x\n", "\t\u{200b}y"] {
        assert_eq!(trim(s), s.trim());
        assert_eq!(trim_end(s), s.trim_end());
    }
    assert_eq!(trim_class("\"q\"\"", Class::Is('"')), "q");
    assert_eq!(trim_class("__a-b_-", Class::Either('_', '-')), "a-b");
    assert_eq!(trim_class("._-a.-_", Class::OneOf('.', '_', '-')), "a");
}

#[test]
fn splitting_agrees_with_std() {
    for s in ["", "a", "a,b", ",a,,b,", ",,"] {
        assert_eq!(split_class(s, Class::Is(',')), s.split(',').collect::<Vec<_>>());
        assert_eq!(splitn_class(s, Class::Is(','), 2), s.splitn(2, ',').collect::<Vec<_>>());
        assert_eq!(splitn_class(s, Class::Is(','), 1), s.splitn(1, ',').collect::<Vec<_>>());
    }
    for s in ["", "  a \u{3000} b\tc ", "one"] {
        assert_eq!(words(s), s.split_whitespace().collect::<Vec<_>>());
    }
    for s in ["", "a", "a\n", "a\nb", "a\r\nb\r\n", "\n\n", "a\r", "a\rb\n", "\r\n"] {
        assert_eq!(lines(s), s.lines().collect::<Vec<_>>());
    }
    assert_eq!(keep_nonempty(split_class(",a,,b,", Class::Is(','))), ["a", "b"]);
}

#[test]
fn searching_agrees_with_std() {
    for (s, p) in [("", ""), ("abc", ""), ("abc", "bc"), ("abc", "cb"), ("aab", "ab"), ("海康", "康")] {
        assert_eq!(contains(s, p), s.contains(p));
        assert_eq!(starts_with(s, p), s.starts_with(p));
        assert_eq!(str_eq(s, p), s == p);
    }
    assert!(contains_char("海康", '康'));
    assert!(!contains_char("海康", 'x'));
    let v = to_chars("a,b;c");
    assert_eq!(find_class(&v, Class::Either(';', ','), 2), 3);
    assert_eq!(find_class(&v, Class::White, 0), 5);
    assert_eq!(from_chars(&v, 2, 5), "b;c");
    assert_eq!(skip_chars("海康x", 2), "x");
}

#[test]
fn replacing_agrees_with_std() {
    for (s, p, t) in [("aaa", "aa", "b"), ("a&amp;b", "&amp;", "&"), ("", "x", "y"), ("xx", "x", "xx")] {
        assert_eq!(replace(s, p, t), s.replace(p, t));
    }
}

#[test]
fn ascii_case_agrees_with_std() {
    for (a, b) in [("AbC", "aBc"), ("Ä", "ä"), ("a", "ab"), ("K", "\u{212a}")] {
        assert_eq!(eq_ignore_case(a, b), a.eq_ignore_ascii_case(b));
        assert_eq!(to_ascii_lower(a), a.to_ascii_lowercase());
    }
}

#[test]
fn joining_and_lists() {
    let v: Vec<String> = vec!["a".into(), "b".into(), "c".into()];
    assert_eq!(join_from(&v, 0, ", "), "a, b, c");
    assert_eq!(join_from(&v, 1, " "), "b c");
    assert_eq!(join_from(&v, 3, " "), "");
    assert!(list_has(&v, "b"));
    assert!(!list_has(&v, "B"));
    assert_eq!(cat("x".to_string(), "y"), "xy");
}

#[test]
fn numbers_are_written_and_read_back() {
    for n in [0, 7, 10, 99, 100, 12345, u64::MAX] {
        assert_eq!(u64_text(n), n.to_string());
        assert_eq!(parse_u64(&u64_text(n)), Some(n));
    }
    for i in [0, -1, 9, -10, i32::MIN, i32::MAX] {
        assert_eq!(i32_text(i), i.to_string());
        assert_eq!(parse_i32(&i32_text(i)), Some(i));
    }
    assert_eq!(usize_text(4096), "4096");
}

#[test]
fn reading_numbers_agrees_with_std() {
    for s in [
        "", "+", "-", "0", "007", "+5", "-5", "--5", " 5", "5 ", "4294967295", "4294967296",
        "2147483647", "2147483648", "-2147483648", "-2147483649", "9223372036854775807",
        "-9223372036854775808", "9223372036854775808", "18446744073709551615",
        "18446744073709551616", "1e3", "٣",
    ] {
        assert_eq!(parse_u64(s), s.parse().ok(), "{s}");
        assert_eq!(parse_u32(s), s.parse().ok(), "{s}");
        assert_eq!(parse_i32(s), s.parse().ok(), "{s}");
        assert_eq!(parse_i64(s), s.parse().ok(), "{s}");
    }
}

#[test]
fn ranks_of_whole_points_are_bit_patterns() {
    for n in 8..128u8 {
        assert_eq!(rank_of_whole(n), Rank::At((n as f32).to_bits() as i32));
        assert_eq!(score_of_whole(n).plain, format!("{}", n as f32));
        assert_eq!(score_of_whole(n).whole, format!("{:.0}", n as f32));
    }
    assert!(rank_of_whole(30).below(rank_of_whole(31)));
    assert!(!rank_of_whole(31).below(rank_of_whole(31)));
    assert!(rank_of_whole(31).at_least(rank_of_whole(31)));
    assert!(!Rank::NotANumber.below(rank_of_whole(31)));
    assert!(!rank_of_whole(31).at_least(Rank::NotANumber));
}

#[test]
fn scores_are_clamped_by_rank() {
    assert_eq!(clamp_score(score_of_whole(9), 20, 60).plain, "20");
    assert_eq!(clamp_score(score_of_whole(90), 20, 60).plain, "60");
    assert_eq!(clamp_score(score_of_whole(33), 20, 60).plain, "33");
}

#[test]
fn order_is_descending_and_stable() {
    assert_eq!(order_desc(&vec![3, 9, 3, 9, -1]), [1, 3, 0, 2, 4]);
    assert!(order_desc(&vec![]).is_empty());
}
