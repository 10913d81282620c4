use voicedrop_core::blocklist::{tokenize, Blocklist, Token};

#[test]
fn removes_default_word_case_insensitively() {
    let blocklist = Blocklist::new(&[]);
    assert_eq!(blocklist.filter("I said Fuck that"), "I said that");
}

#[test]
fn does_not_touch_word_containing_blocklisted_substring() {
    let blocklist = Blocklist::new(&["ass".to_string()]);
    assert_eq!(blocklist.filter("call an assassin"), "call an assassin");
}

#[test]
fn removes_custom_user_word() {
    let blocklist = Blocklist::new(&["voicedrop".to_string()]);
    assert_eq!(
        blocklist.filter("this is voicedrop testing"),
        "this is testing"
    );
}

#[test]
fn removes_multiple_occurrences() {
    let blocklist = Blocklist::new(&[]);
    assert_eq!(blocklist.filter("shit this is shit"), "this is");
}

#[test]
fn cleans_up_punctuation_spacing_after_removal() {
    let blocklist = Blocklist::new(&[]);
    assert_eq!(
        blocklist.filter("well, shit, that broke"),
        "well, that broke"
    );
}

#[test]
fn text_with_no_blocklisted_words_is_unchanged_besides_whitespace_normalization() {
    let blocklist = Blocklist::new(&[]);
    assert_eq!(blocklist.filter("hello there friend"), "hello there friend");
}

#[test]
fn empty_custom_words_are_ignored_not_matched_as_blank() {
    let blocklist = Blocklist::new(&["".to_string(), "  ".to_string()]);
    assert_eq!(blocklist.filter("hello there"), "hello there");
}

#[test]
fn preserves_contractions_as_single_tokens() {
    let blocklist = Blocklist::new(&["dont".to_string()]);
    assert_eq!(blocklist.filter("I don't know"), "I don't know");
}

#[test]
fn custom_words_are_trimmed_and_lowercased() {
    let blocklist = Blocklist::new(&["  VoiceDrop  ".to_string()]);
    assert_eq!(blocklist.filter("try VOICEDROP now"), "try now");
}

#[test]
fn whitespace_runs_collapse_to_single_spaces() {
    let blocklist = Blocklist::new(&[]);
    assert_eq!(blocklist.filter("  hello \t\n there  "), "hello there");
}

#[test]
fn space_before_punctuation_is_dropped() {
    let blocklist = Blocklist::new(&[]);
    assert_eq!(blocklist.filter("that , right ?"), "that, right?");
}

#[test]
fn doubled_punctuation_left_by_removal_collapses() {
    let blocklist = Blocklist::new(&[]);
    assert_eq!(blocklist.filter("stop. shit. go"), "stop. go");
}

#[test]
fn removing_every_word_leaves_only_punctuation() {
    let blocklist = Blocklist::new(&[]);
    assert_eq!(blocklist.filter("shit!"), "!");
    assert_eq!(blocklist.filter(""), "");
}

#[test]
fn digits_and_non_ascii_letters_are_word_characters() {
    let blocklist = Blocklist::new(&["café".to_string()]);
    assert_eq!(blocklist.filter("a café 42"), "a 42");
}

#[test]
fn every_default_word_is_removed() {
    let blocklist = Blocklist::new(&[]);
    assert_eq!(
        blocklist.filter("fuck fucking shit bitch asshole bastard ok"),
        "ok"
    );
}

fn token_parts(tokens: &[Token]) -> Vec<(bool, String)> {
    tokens
        .iter()
        .map(|t| match t {
            Token::Word(s) => (true, s.clone()),
            Token::Other(s) => (false, s.clone()),
        })
        .collect()
}

#[test]
fn tokenize_splits_into_alternating_maximal_runs() {
    let parts = token_parts(&tokenize("I don't, know!"));
    let expected: Vec<(bool, String)> = vec![
        (true, "I".to_string()),
        (false, " ".to_string()),
        (true, "don't".to_string()),
        (false, ", ".to_string()),
        (true, "know".to_string()),
        (false, "!".to_string()),
    ];
    assert_eq!(parts, expected);
    let joined: String = parts.iter().map(|(_, s)| s.as_str()).collect();
    assert_eq!(joined, "I don't, know!");
}

#[test]
fn tokenize_of_empty_text_is_empty() {
    assert!(tokenize("").is_empty());
}

#[test]
fn tokenize_keeps_leading_non_word_run() {
    let parts = token_parts(&tokenize("  hi"));
    assert_eq!(parts, vec![(false, "  ".to_string()), (true, "hi".to_string())]);
}

#[test]
fn filtering_twice_is_filtering_once() {
    let blocklist = Blocklist::new(&["voicedrop".to_string()]);
    for text in [
        "well, shit, that broke",
        "  shit ,, voicedrop  ok  !! ",
        "I said Fuck that",
        "fuck",
        "",
        "a.. b ,c",
    ] {
        let once = blocklist.filter(text);
        assert_eq!(blocklist.filter(&once), once, "input {:?}", text);
    }
}

#[test]
fn non_ascii_whitespace_collapses_to_one_space() {
    let blocklist = Blocklist::new(&[]);
    assert_eq!(
        blocklist.filter("\u{3000}hello\u{a0}\u{2003}there\u{85}"),
        "hello there"
    );
}

#[test]
fn filtered_text_is_normalized() {
    let blocklist = Blocklist::new(&[]);
    assert_eq!(blocklist.filter("  ok shit , , then ;  fine "), "ok, then; fine");
}
