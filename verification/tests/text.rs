use voicedrop_core::blocklist::Blocklist;
use voicedrop_core::text::{char_is_whitespace, trim_str};

#[test]
fn whitespace_class_matches_every_character() {
    for u in 0u32..=0x10FFFF {
        if let Some(c) = char::from_u32(u) {
            assert_eq!(char_is_whitespace(c), c.is_whitespace(), "code point {:#x}", u);
        }
    }
}

#[test]
fn trim_drops_unicode_whitespace_at_both_ends() {
    assert_eq!(trim_str("\u{3000} hi there\u{a0}\n"), "hi there");
    assert_eq!(trim_str(" \t "), "");
}

#[test]
fn custom_words_match_whatever_their_case() {
    let blocklist = Blocklist::new(&["  ÉTÉ ".to_string(), " ".to_string()]);
    assert_eq!(blocklist.filter("un été chaud"), "un chaud");
    assert_eq!(blocklist.filter("un Été chaud"), "un chaud");
}
