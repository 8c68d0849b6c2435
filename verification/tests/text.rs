use ax_exchange_sdk::text::{find, split, str_eq, strip_prefix, to_ascii_lowercase, to_ascii_uppercase, trim};

#[test]
fn text_helpers_agree_with_std() {
    for s in ["", "  a b ", "\t\nx\u{a0}", "a,b,,c", "Hello, Wörld", "  "] {
        assert_eq!(trim(s), s.trim());
        let pieces: Vec<String> = s.split(',').map(|p| p.to_string()).collect();
        assert_eq!(split(s, ','), pieces);
        assert_eq!(to_ascii_lowercase(s), s.to_ascii_lowercase());
        assert_eq!(to_ascii_uppercase(s), s.to_ascii_uppercase());
        assert_eq!(find(s, ','), s.chars().position(|c| c == ','));
        assert_eq!(strip_prefix(s, "  "), s.strip_prefix("  "));
        assert!(str_eq(s, s));
    }
    assert!(!str_eq("ab", "abc"));
}
