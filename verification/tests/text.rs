use librefang::json::{parse_bytes, parse_text, with_member, Json};
use librefang::text::{
    ascii_lower, chars_of, concat2, concat3, contains, drop_leading, drop_trailing, find_from,
    is_white_space, join, parse_decimal, parse_unsigned, replace_all, same_text, split,
    starts_with, string_between, to_ascii_lowercase, to_decimal, trim, trim_start,
};
use librefang::types::{split_message, AgentId, DmPolicy, GroupPolicy, Metadata};

const SAMPLES: [&str; 12] = [
    "", " ", "a", "aa", " a b ", "\u{3000}x\u{a0}", "ABC è Ç", "aXbXc", "XX", "//x//", "++1",
    "🎩\n🎩",
];

#[test]
fn white_space_is_the_unicode_property() {
    for code in 0..=0x10_ffff_u32 {
        if let Some(c) = char::from_u32(code) {
            assert_eq!(is_white_space(c), c.is_whitespace(), "{code:x}");
            assert_eq!(ascii_lower(c), c.to_ascii_lowercase(), "{code:x}");
        }
    }
}

#[test]
fn trimming_agrees_with_std() {
    for s in SAMPLES {
        assert_eq!(trim(s), s.trim());
        assert_eq!(trim_start(s), s.trim_start());
        assert_eq!(drop_leading(s, '+'), s.trim_start_matches('+'));
        assert_eq!(drop_trailing(s, '/'), s.trim_end_matches('/'));
        assert_eq!(to_ascii_lowercase(s), s.to_ascii_lowercase());
    }
}

#[test]
fn searching_agrees_with_std() {
    for s in SAMPLES {
        for p in ["", "a", "X", "aa", "XX", "🎩", "\n", "zz"] {
            assert_eq!(contains(s, p), s.contains(p), "{s:?} {p:?}");
            assert_eq!(starts_with(s, p), s.starts_with(p), "{s:?} {p:?}");
            assert_eq!(same_text(s, p), s == p);
            if !p.is_empty() {
                assert_eq!(replace_all(s, p, "<>"), s.replace(p, "<>"), "{s:?} {p:?}");
            }
        }
    }
    assert_eq!(replace_all("aaaa", "aa", "a"), "aa");
    assert_eq!(find_from(&chars_of("abab"), &chars_of("ab"), 1), Some(2));
    assert_eq!(find_from(&chars_of("abab"), &chars_of("ab"), 3), None);
}

#[test]
fn splitting_and_joining_agree_with_std() {
    for s in SAMPLES {
        for sep in ['X', '\n', ' '] {
            let pieces = split(s, sep);
            assert_eq!(pieces, s.split(sep).collect::<Vec<_>>());
            assert_eq!(join(&pieces, &sep.to_string()), s);
        }
    }
    assert_eq!(join(&vec![], ", "), "");
}

#[test]
fn strings_are_put_together() {
    assert_eq!(concat2("è", "b"), "èb");
    assert_eq!(concat3("a", "", "c"), "ac");
    let chars = chars_of("caffè");
    assert_eq!(string_between(&chars, 3, 5), "fè");
    assert_eq!(string_between(&chars, 2, 2), "");
}

#[test]
fn decimals_agree_with_std() {
    for n in [0, 1, 9, 10, 99, 100, 1_234_567_890, u64::MAX] {
        assert_eq!(to_decimal(n), n.to_string());
        assert_eq!(parse_decimal(&n.to_string(), u64::MAX), Some(n));
    }
    for s in ["", "0", "007", "+1", "-1", "1a", " 1", "255", "256", "18446744073709551616", "٣"] {
        assert_eq!(parse_unsigned(s, 255), s.parse::<u8>().ok().map(u64::from), "{s:?}");
        assert_eq!(parse_unsigned(s, u64::MAX), s.parse::<u64>().ok(), "{s:?}");
    }
    assert_eq!(parse_decimal("+1", 9), None);
}

#[test]
fn pieces_are_the_message() {
    for (s, max) in [("", 3), ("abc", 3), ("abcd", 3), ("èèèèèèè", 2), ("x", 1)] {
        let pieces = split_message(s, max);
        assert_eq!(pieces.concat(), s);
        assert!(pieces.iter().all(|p| p.chars().count() <= max));
        assert!(!pieces.is_empty());
    }
    assert_eq!(split_message("abcdefg", 3), ["abc", "def", "g"]);
}

#[test]
fn documents_are_parsed() {
    let j = parse_text(r#" {"a":[1,-2,2.5,"x",null,true],"b":{"c":"d"},"a":7} "#).unwrap();
    assert_eq!(j.get("a").unwrap().as_u64(), Some(7));
    assert_eq!(j.get("b").unwrap().text_at("c"), Some("d"));
    assert!(j.get("z").is_none());
    assert!(parse_text("{").is_none());
    assert!(parse_text("").is_none());

    let list = parse_bytes(br#"[1,-2,2.5,"x",null,true,18446744073709551615]"#).unwrap();
    let items = list.as_array().unwrap();
    assert_eq!(items.len(), 7);
    assert_eq!(items[0].as_u64(), Some(1));
    assert_eq!(items[1].as_u64(), None);
    assert_eq!(items[2].as_u64(), None);
    assert_eq!(items[3].as_str(), Some("x"));
    assert!(matches!(items[4], Json::Null));
    assert_eq!(items[5].as_bool(), Some(true));
    assert_eq!(items[6].as_u64(), Some(u64::MAX));
    match &items[2] {
        Json::Number { text, .. } => assert_eq!(text, "2.5"),
        other => panic!("{other:?}"),
    }
    let why = parse_bytes(b"\xff").unwrap_err();
    assert_eq!(why, serde_json::from_slice::<serde_json::Value>(b"\xff").unwrap_err().to_string());
}

#[test]
fn wrong_kinds_give_nothing() {
    let t = Json::text("x");
    assert_eq!(t.as_str(), Some("x"));
    assert_eq!(t.as_bool(), None);
    assert_eq!(t.as_u64(), None);
    assert!(t.as_array().is_none());
    assert!(t.get("x").is_none());
    assert!(Json::Bool(true).as_str().is_none());
    let o = Json::object(with_member(vec![], "k", Json::Bool(false)));
    assert_eq!(o.get("k").unwrap().as_bool(), Some(false));
    assert_eq!(o.text_at("k"), None);
}

#[test]
fn metadata_keeps_the_latest_value() {
    let mut m = Metadata::new();
    assert!(m.get("a").is_none());
    m.insert("a".to_string(), Json::Bool(true));
    m.insert("b".to_string(), Json::text("x"));
    m.insert("a".to_string(), Json::Bool(false));
    assert_eq!(m.get("a").unwrap().as_bool(), Some(false));
    assert_eq!(m.get("b").unwrap().as_str(), Some("x"));
    assert!(m.get("c").is_none());
}

#[test]
fn policies_have_defaults() {
    assert_eq!(DmPolicy::default(), DmPolicy::Respond);
    assert_eq!(GroupPolicy::default(), GroupPolicy::MentionOnly);
    assert_ne!(AgentId(1), AgentId(2));
}
