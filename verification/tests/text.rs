use rshell::text::{lower_case, trim, trim_end};

#[test]
fn white_space_is_trimmed_at_the_ends() {
    assert_eq!(trim(" \t a b\u{3000}\n"), "a b");
    assert_eq!(trim_end(" a b \u{2009}"), " a b");
    assert_eq!(trim(" \u{85} "), "");
    assert_eq!(trim(""), "");
    assert_eq!(trim_end("  "), "");
    assert_eq!(trim("\u{200b}x"), "\u{200b}x");
}

#[test]
fn every_white_space_character_is_trimmed() {
    for c in '\0'..=char::MAX {
        let s = c.to_string();
        assert_eq!(trim(&s).is_empty(), c.is_whitespace());
        assert_eq!(trim_end(&s).is_empty(), c.is_whitespace());
    }
}

#[test]
fn texts_in_lower_case() {
    assert_eq!(lower_case("ÉcLAIR"), "éclair");
    assert_eq!(lower_case(""), "");
}
