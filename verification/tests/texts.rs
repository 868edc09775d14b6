use ubrn_napi::ffi::name_map::NameMap;
use ubrn_napi::jspi::selector::{normalized_eq, parse_selector};
use ubrn_napi::name_set::NameSet;
use ubrn_napi::text::{
    find_char, is_blank, is_white_space, join, replace, same_text, starts_with,
};

fn strings(list: &[&str]) -> Vec<String> {
    list.iter().map(|s| s.to_string()).collect()
}

#[test]
fn white_space_is_what_unicode_says() {
    for c in '\0'..=char::MAX {
        assert_eq!(is_white_space(c), c.is_whitespace(), "{c:?}");
    }
}

#[test]
fn blank_texts_trim_to_nothing() {
    for text in ["", " ", "\t\n\u{2003}", " a ", "a", "\u{3000}b"] {
        assert_eq!(is_blank(text), text.trim().is_empty(), "{text:?}");
    }
}

#[test]
fn replacing_works_as_on_strings() {
    for (src, from, to) in [
        ("", "-", "_"),
        ("my-crate-name", "-", "_"),
        ("aaaa", "aa", "b"),
        ("aaaaa", "aa", "aaa"),
        ("{{x}} and {{x}}", "{{x}}", "{{x}}{{x}}"),
        ("äöü-ß", "ö", "oe"),
        ("nothing", "zzz", "y"),
        ("short", "much longer", "y"),
        ("end-", "-", ""),
    ] {
        assert_eq!(replace(src, from, to), src.replace(from, to), "{src:?}");
    }
}

#[test]
fn replacing_what_is_absent_changes_nothing() {
    assert_eq!(replace("[package]\n", "{{crate_name}}", "x"), "[package]\n");
}

#[test]
fn joining_puts_the_separator_between() {
    assert_eq!(join(&strings(&[]), ", "), "");
    assert_eq!(join(&strings(&["a"]), ", "), "a");
    assert_eq!(join(&strings(&["a", "", "c"]), ", "), "a, , c");
}

#[test]
fn prefixes_and_positions_count_characters() {
    assert!(starts_with("ForeignFutureX", "ForeignFuture"));
    assert!(starts_with("x", ""));
    assert!(!starts_with("Foreign", "ForeignFuture"));
    assert!(!starts_with("xForeign", "Foreign"));
    assert_eq!(find_char("äb.c.d", '.'), Some(2));
    assert_eq!(find_char("", '.'), None);
    assert_eq!(find_char("abc", '.'), None);
    assert!(same_text("ä", "ä"));
    assert!(!same_text("a", "A"));
}

#[test]
fn a_set_of_names_holds_each_once() {
    let mut set = NameSet::new();
    assert!(set.is_empty());
    assert!(set.insert("b".into()));
    assert!(set.insert("a".into()));
    assert!(!set.insert("b".into()));
    assert!(set.contains("a") && set.contains("b") && !set.contains("c"));
    assert_eq!(set.len(), 2);
    assert!(!set.is_empty());
    assert_eq!(set.into_names(), ["b", "a"]);
}

#[test]
fn the_last_value_of_a_name_counts() {
    let mut map = NameMap::new();
    assert!(!map.contains_key("free"));
    map.insert("free".into(), "first".into());
    map.insert("other".into(), "x".into());
    map.insert("free".into(), "second".into());
    assert_eq!(map.get("free"), Some("second"));
    assert_eq!(map.get("other"), Some("x"));
    assert_eq!(map.get("missing"), None);
    assert!(map.contains_key("free"));
}

#[test]
fn names_match_across_case_conventions() {
    assert!(normalized_eq("load_settings", "loadSettings"));
    assert!(normalized_eq("LoadSettings", "load-settings"));
    assert!(normalized_eq("", " "));
    assert!(!normalized_eq("load_setting", "loadSettings"));
    assert!(!normalized_eq("loadsettings", "loadSettings"));
}

#[test]
fn selectors_have_an_owner_and_perhaps_a_member() {
    let selector = parse_selector("Processor.async method").unwrap();
    assert_eq!(selector.owner, "Processor");
    assert_eq!(selector.member, Some("async method"));
    let selector = parse_selector(" compute ").unwrap();
    assert_eq!(selector.owner, " compute ");
    assert_eq!(selector.member, None);
    for bad in ["", " ", ".", "a.", ".a", "a. ", "\t.b", "a.b.c", "a..b", "a.b."] {
        assert!(parse_selector(bad).is_none(), "{bad:?}");
    }
}
