use queuepeek::json::lookup_json_path;
use queuepeek::operations::{chrono_timestamp, parse_x_death_value};
use queuepeek::order::sort_texts_all;
use queuepeek::text::{i64_text, parse_i64, parse_u16, parse_u32, trimmed, u64_text};
use queuepeek::theme::{theme_index, theme_names};

#[test]
fn numbers_parse_like_std() {
    assert_eq!(parse_u16("65535"), Some(65535));
    assert_eq!(parse_u16("65536"), None);
    assert_eq!(parse_u16("+7"), Some(7));
    assert_eq!(parse_u16(""), None);
    assert_eq!(parse_u32(" 1"), None);
    assert_eq!(parse_i64("-9223372036854775808"), Some(i64::MIN));
    assert_eq!(parse_i64("9223372036854775808"), None);
    assert_eq!(u64_text(0), "0");
    assert_eq!(i64_text(-42), "-42");
    assert_eq!(trimmed("  a b \n"), "a b");
}

#[test]
fn sorting_names() {
    let v: Vec<String> = vec!["b".into(), "a".into(), "ab".into()];
    assert_eq!(sort_texts_all(&v), vec!["a", "ab", "b"]);
    let w: Vec<String> = vec!["b".into(), "a".into(), "b".into()];
    assert_eq!(sort_texts_all(&w), vec!["a", "b", "b"]);
}

#[test]
fn json_paths() {
    assert_eq!(lookup_json_path("{\"a\": {\"b\": 5}}", "a.b"), "5");
    assert_eq!(lookup_json_path("{\"a\": {\"b\": \"x\"}}", "a.b"), "x");
    assert_eq!(lookup_json_path("{\"a\": 1}", "a.c"), "");
    assert_eq!(lookup_json_path("not json", "a"), "");
}

#[test]
fn dead_letter_headers() {
    assert_eq!(
        parse_x_death_value("[{\"exchange\": \"ex\", \"routing-keys\": [\"rk\"]}]"),
        Some(("ex".to_string(), "rk".to_string()))
    );
    assert_eq!(
        parse_x_death_value("{\"exchange\": \"\", \"routing-keys\": [\"only-rk\"]}"),
        Some(("".to_string(), "only-rk".to_string()))
    );
    assert_eq!(parse_x_death_value("{\"queue\": \"q\"}"), None);
    assert_eq!(parse_x_death_value("[]"), None);
    assert_eq!(parse_x_death_value("garbage"), None);
}

#[test]
fn timestamps_are_decimal() {
    let t = chrono_timestamp();
    assert!(!t.is_empty());
    assert!(t.chars().all(|c| c.is_ascii_digit()));
    assert!(t.parse::<u64>().unwrap() > 1_600_000_000);
}

#[test]
fn themes() {
    assert_eq!(theme_names(), vec!["slack", "dracula", "gruvbox", "catppuccin", "tokyo-night"]);
    assert_eq!(theme_index("gruvbox"), 2);
    assert_eq!(theme_index("unknown"), 0);
}

#[test]
fn trimming_whitespace_follows_unicode_white_space() {
    for u in 0u32..=0x10ffff {
        if let Some(c) = char::from_u32(u) {
            let s = c.to_string();
            assert_eq!(trimmed(&s).is_empty(), c.is_whitespace(), "U+{:04X}", u);
        }
    }
}
