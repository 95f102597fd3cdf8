use nuphus::hashing::tagged_digest;
use nuphus::ids::{fresh_simple, without_hyphens};
use nuphus::json::{
    exceeds, json_of, json_with, put_bool, put_number, put_opt_number, put_opt_string, put_string,
};
use nuphus::order::stands_before;
use nuphus::table::Table;
use nuphus::text::{
    ascii_lowercase, chars_of, contains_text, decimal, ends_with, eq_ignore_ascii_case, hex,
    is_blank, join, parse_number, replace_all, signed_decimal, span, split, split_filled,
    split_whitespace, starts_with, strip_prefix, take_chars, trim, trim_end,
};

#[test]
fn texts_are_looked_into() {
    assert!(contains_text("中文 text", "文 t"));
    assert!(contains_text("a", ""));
    assert!(!contains_text("", "a"));
    assert!(starts_with("中文", "中"));
    assert!(ends_with("中文", "文"));
    assert!(!ends_with("a", "ba"));
    assert_eq!(strip_prefix("--x", "--").as_deref(), Some("x"));
    assert_eq!(strip_prefix("x", "--"), None);
    assert!(eq_ignore_ascii_case("AbC", "aBc"));
    assert!(!eq_ignore_ascii_case("Ä", "ä"));
    assert_eq!(ascii_lowercase("AÄz"), "aÄz");
}

#[test]
fn blanks_are_cut_as_std_cuts_them() {
    for s in ["", " \t a b\u{3000}\n", "\u{85}x\u{a0}", "\u{200b}y", "\u{2028}"] {
        assert_eq!(trim(s), s.trim());
        assert_eq!(trim_end(s), s.trim_end());
        assert_eq!(is_blank(s), s.trim().is_empty());
        let words: Vec<&str> = s.split_whitespace().collect();
        assert_eq!(split_whitespace(s), words);
    }
}

#[test]
fn texts_are_cut_and_put_together() {
    assert_eq!(replace_all("aaa", "aa", "b"), "ba");
    assert_eq!(replace_all("x{n}y{n}", "{n}", "中"), "x中y中");
    assert_eq!(
        join(&vec!["a".to_string(), "b".to_string()], ", "),
        "a, b"
    );
    assert_eq!(join(&Vec::new(), ", "), "");
    assert_eq!(split("a,,b", ','), vec!["a", "", "b"]);
    assert_eq!(split("", ','), vec![""]);
    assert_eq!(split_filled(" a | | b ", '|'), vec!["a", "b"]);
    assert_eq!(take_chars("中文字", 2), "中文");
    assert_eq!(span(&chars_of("中文字"), 1, 3), "文字");
}

#[test]
fn numbers_are_written_and_read() {
    for n in [0, 9, 10, 255, u64::MAX] {
        assert_eq!(decimal(n), n.to_string());
        assert_eq!(hex(n, 16), format!("{n:016x}"));
        assert_eq!(parse_number(&n.to_string()), Some(n));
    }
    for n in [0, -1, i64::MIN, i64::MAX] {
        assert_eq!(signed_decimal(n), n.to_string());
    }
    for s in ["", "+", "-1", "+7", "18446744073709551616", "1 ", "007"] {
        assert_eq!(parse_number(s), s.parse::<u64>().ok());
    }
}

#[test]
fn texts_are_in_the_order_of_their_characters() {
    assert!(stands_before("a", "b"));
    assert!(stands_before("a", "aa"));
    assert!(!stands_before("a", "a"));
    assert!(stands_before("z", "中"));
}

#[test]
fn table_keeps_one_value_for_a_key() {
    let mut t: Table<String, String> = Table::new();
    t.put("a".to_string(), "1".to_string());
    t.put("b".to_string(), "2".to_string());
    t.put("a".to_string(), "3".to_string());
    assert_eq!(t.len(), 2);
    assert_eq!(t.get(&"a".to_string()).as_deref(), Some("3"));
    assert_eq!(t.find(&"b".to_string()), Some(1));
    t.remove(&"a".to_string());
    assert_eq!(t.get(&"a".to_string()), None);
    assert_eq!(t.get(&"b".to_string()).as_deref(), Some("2"));
    t.clear();
    assert_eq!(t.len(), 0);
}

#[test]
fn json_texts_are_those_of_the_json_library() {
    for s in ["", "plain", "quote \" back \\ line \n tab \t", "中 \u{1} \u{7f} \u{1F5A5}"] {
        let mut out = String::new();
        put_string(&mut out, s);
        assert_eq!(out, serde_json::to_string(s).unwrap());
        assert!(!exceeds(s, out.len()));
    }
    let mut out = String::new();
    put_bool(&mut out, true);
    put_number(&mut out, 42);
    put_opt_number(&mut out, None);
    put_opt_string(&mut out, &None);
    put_opt_string(&mut out, &Some("x".to_string()));
    assert_eq!(out, "true42nullnull\"x\"");
}

#[test]
fn json_values_are_read_or_kept_as_texts() {
    assert_eq!(json_of("{ \"b\": 1, \"a\": [ true ] }"), "{\"a\":[true],\"b\":1}");
    assert_eq!(json_of("not json"), "\"not json\"");
    assert_eq!(json_with("x", Some("{}".to_string())), "{}");
    assert_eq!(json_with("x", None), "\"x\"");
}

#[test]
fn identifiers_are_fresh() {
    let a = fresh_simple();
    let b = fresh_simple();
    assert_eq!(a.len(), 32);
    assert!(a.chars().all(|c| c.is_ascii_hexdigit()));
    assert_ne!(a, b);
    assert_eq!(&a[12..13], "4");
    assert!("89ab".contains(&a[16..17]));
    assert_eq!(without_hyphens("a-b--c"), "abc");
}

#[test]
fn digests_tell_texts_apart() {
    let a = tagged_digest("w:", "one");
    assert_eq!(a, tagged_digest("w:", "one"));
    assert_ne!(a, tagged_digest("w:", "two"));
    assert!(a.starts_with("w:"));
    assert_eq!(a.len(), 18);
}
