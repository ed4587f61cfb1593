use decman::map::TextMap;
use decman::text;

#[test]
fn white_space_is_what_the_standard_library_says() {
    for c in '\0'..=char::MAX {
        assert_eq!(text::white_space(c), c.is_whitespace(), "{:x}", c as u32);
    }
}

#[test]
fn lower_case_is_that_of_ascii() {
    for c in '\0'..='\u{2ff}' {
        assert_eq!(text::lower(c), c.to_ascii_lowercase());
    }
}

#[test]
fn trimming_agrees_with_the_standard_library() {
    for s in ["", " ", " a ", "a b", "\u{3000}x\u{85}", "\t\n", "é "] {
        assert_eq!(text::trim(s), s.trim());
    }
}

#[test]
fn splitting_agrees_with_the_standard_library() {
    for s in ["", ",", "a,b", ",a,,b,", "é,ü"] {
        let expected: Vec<&str> = s.split(',').collect();
        assert_eq!(text::split(s, ','), expected);
    }
}

#[test]
fn searching_agrees_with_the_standard_library() {
    for s in ["", "a", "::", "a::b", "a::b::c", ":::", "x:y", "a::"] {
        for n in ["", "::", "b", "a::b::c::d"] {
            assert_eq!(text::contains(s, n), s.contains(n), "{s:?} {n:?}");
        }
        assert_eq!(
            text::after_last(s, "::"),
            s.rsplit_once("::").map(|(_, r)| r.to_string()),
            "{s:?}"
        );
        assert_eq!(
            text::strip_prefix(s, "a:"),
            s.strip_prefix("a:").map(|r| r.to_string())
        );
        assert_eq!(text::trim_end_matches(s, ':'), s.trim_end_matches(':'));
    }
}

#[test]
fn joining_agrees_with_the_standard_library() {
    let parts: Vec<String> = ["a", "", "c"].iter().map(|s| s.to_string()).collect();
    assert_eq!(text::join(&parts, ", "), parts.join(", "));
    assert_eq!(text::join(&parts[..1].to_vec(), ", "), "a");
    assert_eq!(text::join(&Vec::new(), ", "), "");
}

#[test]
fn decimal_notation() {
    for n in [0, 9, 10, 65535, 4294967295] {
        assert_eq!(text::decimal_text(n), n.to_string());
    }
}

#[test]
fn case_is_ignored_in_ascii_only() {
    assert!(text::same_ignoring_case("TeXt", "tEXT"));
    assert!(!text::same_ignoring_case("É", "é"));
    assert!(!text::same_ignoring_case("text", "texts"));
}

#[test]
fn a_map_keeps_the_latest_value_of_each_key() {
    let mut m: TextMap<u8> = TextMap::new();
    assert!(m.is_empty());
    m.insert("a".to_string(), 1);
    m.insert("b".to_string(), 2);
    m.insert("a".to_string(), 3);
    assert_eq!(m.get("a"), Some(&3));
    assert_eq!(m.get("c"), None);
    assert_eq!(m.keys().len(), 2);
    assert_eq!(m.remove("a"), Some(3));
    assert_eq!(m.remove("a"), None);
    assert!(!m.contains_key("a") && m.contains_key("b"));
}
