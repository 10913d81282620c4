use voicedrop_core::audio::WHISPER_SAMPLE_RATE;
use voicedrop_core::transcribe::{join_segments};
use voicedrop_core::transcribe::{
    build_initial_prompt, duration_ms, is_too_short, resolve_language, LanguageSetting,
    TranscribeConfig, MIN_SPEECH_MS,
};

fn samples_of_duration_ms(ms: u64) -> Vec<f32> {
    vec![0.0; (WHISPER_SAMPLE_RATE as u64 * ms / 1000) as usize]
}

#[test]
fn short_clip_is_too_short() {
    assert!(is_too_short(samples_of_duration_ms(100).len()));
}

#[test]
fn clip_at_threshold_is_not_too_short() {
    assert!(!is_too_short(samples_of_duration_ms(MIN_SPEECH_MS).len()));
}

#[test]
fn empty_buffer_is_too_short() {
    let empty: [f32; 0] = [];
    assert!(is_too_short(empty.len()));
}

#[test]
fn fixed_language_wins_regardless_of_duration() {
    let config = TranscribeConfig {
        language: LanguageSetting::Fixed("fr".to_string()),
        fallback_language: Some("en".to_string()),
        vocabulary: vec![],
    };
    assert_eq!(
        resolve_language(&config, samples_of_duration_ms(5_000).len()),
        Some("fr")
    );
}

#[test]
fn auto_on_short_clip_falls_back_to_configured_language() {
    let config = TranscribeConfig {
        language: LanguageSetting::Auto,
        fallback_language: Some("en".to_string()),
        vocabulary: vec![],
    };
    assert_eq!(
        resolve_language(&config, samples_of_duration_ms(500).len()),
        Some("en")
    );
}

#[test]
fn auto_on_long_clip_lets_whisper_detect() {
    let config = TranscribeConfig {
        language: LanguageSetting::Auto,
        fallback_language: Some("en".to_string()),
        vocabulary: vec![],
    };
    assert_eq!(
        resolve_language(&config, samples_of_duration_ms(5_000).len()),
        None
    );
}

#[test]
fn empty_vocabulary_produces_no_prompt() {
    assert_eq!(build_initial_prompt(&[]), None);
}

#[test]
fn vocabulary_joins_into_prompt() {
    assert_eq!(
        build_initial_prompt(&["VoiceDrop".to_string(), "whisper.cpp".to_string()]),
        Some("VoiceDrop, whisper.cpp".to_string())
    );
}

#[test]
fn duration_is_whole_milliseconds_at_16_khz() {
    assert_eq!(duration_ms(16_000), 1000);
    assert_eq!(duration_ms(15), 0);
    assert_eq!(duration_ms(16), 1);
    assert!(is_too_short(4799));
    assert!(!is_too_short(4800));
}

#[test]
fn auto_detect_threshold_is_two_seconds() {
    let config = TranscribeConfig {
        language: LanguageSetting::Auto,
        fallback_language: None,
        vocabulary: vec![],
    };
    assert_eq!(resolve_language(&config, 31_999), None);
    let with_fallback = TranscribeConfig {
        fallback_language: Some("uk".to_string()),
        ..config.clone()
    };
    assert_eq!(resolve_language(&with_fallback, 31_999), Some("uk"));
    assert_eq!(resolve_language(&with_fallback, 32_000), None);
}

#[test]
fn default_config_auto_detects_without_vocabulary() {
    let config = TranscribeConfig::default();
    assert_eq!(config.language, LanguageSetting::Auto);
    assert!(config.fallback_language.is_none());
    assert!(config.vocabulary.is_empty());
    assert_eq!(build_initial_prompt(&["one".to_string()]), Some("one".to_string()));
}

#[test]
fn segments_join_into_a_trimmed_transcript() {
    assert_eq!(
        join_segments(&[" Hello".to_string(), " world.".to_string()]),
        "Hello world."
    );
    assert_eq!(join_segments(&[" ".to_string()]), "");
    assert_eq!(join_segments(&[]), "");
}
