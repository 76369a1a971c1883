use discord_activity_mvp::monitor::{normalize_process_name, normalize_process_names};
use discord_activity_mvp::text::{is_white_space, join, trim, utf8_len_exceeds, utf8_width};

#[test]
fn trim_matches_str_trim() {
    for text in [
        "",
        "   ",
        "  a b  ",
        "\t\n x \r\n",
        "\u{3000}wide\u{2003}",
        "\u{a0}nbsp\u{85}",
        "no-space",
        "é ",
    ] {
        assert_eq!(trim(text), text.trim());
    }
}

#[test]
fn white_space_matches_char_is_whitespace() {
    for code in 0u32..0x3100 {
        if let Some(c) = char::from_u32(code) {
            assert_eq!(is_white_space(c), c.is_whitespace(), "{code:#x}");
        }
    }
}

#[test]
fn utf8_width_matches_len_utf8() {
    for c in ['a', 'é', '€', '😀', '\u{7f}', '\u{80}', '\u{7ff}', '\u{800}', '\u{ffff}'] {
        assert_eq!(utf8_width(c), c.len_utf8());
    }
}

#[test]
fn byte_length_limit() {
    assert!(!utf8_len_exceeds("abc", 3));
    assert!(utf8_len_exceeds("abcd", 3));
    assert!(utf8_len_exceeds("éé", 3));
    assert!(!utf8_len_exceeds("é", 2));
}

#[test]
fn join_puts_separator_between() {
    let parts = vec!["a".to_owned(), "b".to_owned(), "c".to_owned()];
    assert_eq!(join(&parts, " + "), "a + b + c");
    assert_eq!(join(&parts[..1], " + "), "a");
    assert_eq!(join(&[], " + "), "");
}

#[test]
fn process_names_are_trimmed_and_lowercased() {
    assert_eq!(normalize_process_name("  Wow.EXE \n"), "wow.exe");
    assert_eq!(normalize_process_name("ÉDITEUR.exe"), "éditeur.exe");
    let names = vec![" Code.exe".to_owned(), "OBS64.EXE".to_owned()];
    assert_eq!(normalize_process_names(&names), ["code.exe", "obs64.exe"]);
}

#[test]
fn trimming_twice_changes_nothing_more() {
    for text in ["  a  ", "\u{2028}x y\u{2029}", "", " \t "] {
        let once = trim(text);
        assert_eq!(trim(&once), once);
    }
}
