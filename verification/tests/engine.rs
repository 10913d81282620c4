use voicedrop_core::audio::AudioError;
use voicedrop_core::cleanup::{system_prompt, CleanupError, CleanupStrength};
use voicedrop_core::engine::{
    cleanup_provider_from_code, cleanup_strength_from_code, parse_word_list, state_code,
    voicedrop_cleanup_prompt_for_strength, CleanupProviderKind, CleanupStep, Engine, StatusCode,
};
use voicedrop_core::session::SessionState;
use voicedrop_core::transcribe::TranscribeError;

fn engine() -> Engine {
    Engine::new("/m/ggml-small.bin".to_string(), "/m/qwen.gguf".to_string())
}

/// Drives an engine from idle to the point where speech-to-text has run.
fn record(e: &mut Engine) {
    assert_eq!(e.start_recording(), StatusCode::Success);
    assert_eq!(e.finish_start_recording(Ok(())), StatusCode::Success);
    assert!(e.is_capturing());
    assert_eq!(e.stop_recording(), StatusCode::Success);
    assert!(!e.is_capturing());
    assert_eq!(e.finish_stop_recording(Ok(32_000)), StatusCode::Success);
    assert!(e.needs_transcriber());
    assert_eq!(e.finish_transcriber_load(Ok(())), StatusCode::Success);
    assert!(!e.needs_transcriber());
}

#[test]
fn passthrough_dictation_applies_blocklist_then_delivers_raw_text() {
    let mut e = engine();
    record(&mut e);
    match e.finish_transcription(Ok("well, shit, that broke".to_string())) {
        CleanupStep::Done(StatusCode::Success) => {}
        _ => panic!("expected the pass-through provider to finish"),
    }
    assert_eq!(e.last_raw_transcript(), Some("well, that broke"));
    assert_eq!(e.last_transcript(), Some("well, that broke"));
    assert_eq!(e.state(), SessionState::Done);
    assert_eq!(e.reset(), StatusCode::Success);
    assert_eq!(e.state(), SessionState::Idle);
}

#[test]
fn custom_blocklist_words_apply_to_every_transcript() {
    let mut e = engine();
    e.set_blocklist_words(parse_word_list("voicedrop, , acme "));
    record(&mut e);
    e.finish_transcription(Ok("this is VoiceDrop by acme".to_string()));
    assert_eq!(e.last_raw_transcript(), Some("this is by"));
}

#[test]
fn second_start_while_recording_is_illegal() {
    let mut e = engine();
    assert_eq!(e.start_recording(), StatusCode::Success);
    assert_eq!(e.start_recording(), StatusCode::IllegalState);
    assert_eq!(e.state(), SessionState::Recording);
}

#[test]
fn missing_input_device_rolls_session_back_to_idle() {
    let mut e = engine();
    assert_eq!(e.start_recording(), StatusCode::Success);
    assert_eq!(
        e.finish_start_recording(Err(AudioError::NoInputDevice)),
        StatusCode::NoInputDevice
    );
    assert_eq!(e.state(), SessionState::Idle);
    assert_eq!(e.start_recording(), StatusCode::Success);
    assert_eq!(
        e.finish_start_recording(Err(AudioError::StreamBuildFailed("x".to_string()))),
        StatusCode::AudioOther
    );
    assert_eq!(e.state(), SessionState::Idle);
}

#[test]
fn stopping_without_recording_is_not_recording() {
    let mut e = engine();
    assert_eq!(e.stop_recording(), StatusCode::NotRecording);
    assert_eq!(e.state(), SessionState::Idle);
}

#[test]
fn device_loss_fails_the_session() {
    let mut e = engine();
    e.start_recording();
    e.finish_start_recording(Ok(()));
    e.stop_recording();
    assert_eq!(
        e.finish_stop_recording(Err(AudioError::DeviceDisconnected)),
        StatusCode::DeviceDisconnected
    );
    assert_eq!(e.state(), SessionState::Error);
    assert!(!e.has_samples());
}

#[test]
fn short_recording_ends_as_no_speech() {
    let mut e = engine();
    e.start_recording();
    e.finish_start_recording(Ok(()));
    e.stop_recording();
    assert_eq!(e.finish_stop_recording(Ok(1000)), StatusCode::NoSpeech);
    assert_eq!(e.state(), SessionState::NoSpeech);
    assert!(e.has_samples());
}

#[test]
fn empty_transcript_ends_as_no_speech_and_failures_fail() {
    let mut e = engine();
    record(&mut e);
    match e.finish_transcription(Ok(String::new())) {
        CleanupStep::Done(StatusCode::NoSpeech) => {}
        _ => panic!("expected no-speech"),
    }
    assert_eq!(e.state(), SessionState::NoSpeech);

    let mut f = engine();
    record(&mut f);
    match f.finish_transcription(Err(TranscribeError::TranscriptionFailed("x".to_string()))) {
        CleanupStep::Done(StatusCode::TranscriptionFailed) => {}
        _ => panic!("expected a transcription failure"),
    }
    assert_eq!(f.state(), SessionState::Error);
}

#[test]
fn model_load_failure_fails_the_session() {
    let mut e = engine();
    e.start_recording();
    e.finish_start_recording(Ok(()));
    e.stop_recording();
    e.finish_stop_recording(Ok(32_000));
    assert_eq!(
        e.finish_transcriber_load(Err(TranscribeError::ModelNotFound("/m".to_string()))),
        StatusCode::TranscriptionFailed
    );
    assert_eq!(e.state(), SessionState::Error);
}

#[test]
fn local_provider_asks_to_load_then_run_the_model() {
    let mut e = engine();
    e.set_cleanup_provider(CleanupProviderKind::Local);
    e.set_cleanup_strength(CleanupStrength::LightEdit);
    e.set_language(Some("fr"));
    record(&mut e);
    match e.finish_transcription(Ok("bonjour".to_string())) {
        CleanupStep::RunLocal {
            load_model,
            model_path,
            raw_transcript,
            strength,
            language,
        } => {
            assert!(load_model);
            assert_eq!(model_path, "/m/qwen.gguf");
            assert_eq!(raw_transcript, "bonjour");
            assert_eq!(strength, CleanupStrength::LightEdit);
            assert_eq!(language, Some("fr".to_string()));
        }
        _ => panic!("expected a local run"),
    }
    assert_eq!(e.finish_local_cleanup_load(Ok(())), StatusCode::Success);
    assert_eq!(
        e.finish_cleanup(Ok("Bonjour.".to_string())),
        StatusCode::Success
    );
    assert_eq!(e.last_transcript(), Some("Bonjour."));
    assert_eq!(e.last_raw_transcript(), Some("bonjour"));
    assert_eq!(e.state(), SessionState::Done);
}

#[test]
fn failed_cleanup_never_falls_back_to_the_raw_transcript() {
    let mut e = engine();
    e.set_cleanup_provider(CleanupProviderKind::Local);
    record(&mut e);
    e.finish_transcription(Ok("hello".to_string()));
    assert_eq!(
        e.finish_cleanup(Err(CleanupError::NetworkFailed("down".to_string()))),
        StatusCode::CleanupNetworkFailed
    );
    assert_eq!(e.last_transcript(), None);
    assert_eq!(e.state(), SessionState::Error);

    let mut f = engine();
    f.set_cleanup_provider(CleanupProviderKind::Local);
    record(&mut f);
    f.finish_transcription(Ok("hello".to_string()));
    assert_eq!(
        f.finish_local_cleanup_load(Err(CleanupError::ModelNotFound("/m/qwen.gguf".to_string()))),
        StatusCode::CleanupFailed
    );
    assert_eq!(f.state(), SessionState::Error);
}

#[test]
fn cloud_without_settings_is_invalid_config() {
    let mut e = engine();
    e.set_cleanup_provider(CleanupProviderKind::Cloud);
    record(&mut e);
    match e.finish_transcription(Ok("hello".to_string())) {
        CleanupStep::Done(StatusCode::CleanupInvalidConfig) => {}
        _ => panic!("expected invalid config"),
    }
    assert_eq!(e.state(), SessionState::Error);
    assert_eq!(e.last_raw_transcript(), Some("hello"));
}

#[test]
fn cloud_provider_request_is_built_from_settings() {
    let mut e = engine();
    e.set_cleanup_provider(CleanupProviderKind::Cloud);
    e.set_cleanup_cloud_config(
        "http://localhost:11434/v1/".to_string(),
        "unused".to_string(),
        "qwen2.5:0.5b".to_string(),
    );
    record(&mut e);
    match e.finish_transcription(Ok("hello".to_string())) {
        CleanupStep::SendCloud {
            url,
            authorization,
            request,
        } => {
            assert_eq!(url, "http://localhost:11434/v1/chat/completions");
            assert_eq!(authorization, "Bearer unused");
            assert_eq!(request.model, "qwen2.5:0.5b");
            assert_eq!(request.messages.len(), 2);
            assert_eq!(
                request.messages[0].content,
                system_prompt(CleanupStrength::VerbatimClean)
            );
            assert_eq!(request.messages[1].content, "Transcript: hello");
        }
        _ => panic!("expected a cloud request"),
    }
    assert_eq!(e.state(), SessionState::Processing);
}

#[test]
fn apple_provider_leaves_cleanup_to_the_host() {
    let mut e = engine();
    assert_eq!(
        e.set_cleaned_transcript("x".to_string()),
        StatusCode::IllegalState
    );
    e.set_cleanup_provider(CleanupProviderKind::Apple);
    record(&mut e);
    match e.finish_transcription(Ok("hello".to_string())) {
        CleanupStep::Done(StatusCode::Success) => {}
        _ => panic!("expected the host-side provider to finish"),
    }
    assert_eq!(e.last_transcript(), None);
    assert_eq!(e.state(), SessionState::Done);
    assert_eq!(
        e.set_cleaned_transcript("Hello.".to_string()),
        StatusCode::Success
    );
    assert_eq!(e.last_transcript(), Some("Hello."));
}

#[test]
fn settings_changes_force_reloads() {
    let mut e = engine();
    record(&mut e);
    e.set_model_path("/m/other.bin".to_string());
    assert!(e.needs_transcriber());
    assert_eq!(e.model_path(), "/m/other.bin");
    e.finish_transcriber_load(Ok(()));
    e.unload_cached_models();
    assert!(e.needs_transcriber());
}

#[test]
fn reset_outside_terminal_states_is_illegal() {
    let mut e = engine();
    assert_eq!(e.reset(), StatusCode::IllegalState);
}

#[test]
fn boundary_codes() {
    assert_eq!(StatusCode::Success.code(), 0);
    assert_eq!(StatusCode::CleanupInvalidConfig.code(), 12);
    assert_eq!(state_code(SessionState::NoSpeech), 6);
    assert_eq!(state_code(SessionState::Discarded), 4);
    assert_eq!(cleanup_provider_from_code(3), Some(CleanupProviderKind::Cloud));
    assert_eq!(cleanup_provider_from_code(4), None);
    assert_eq!(cleanup_strength_from_code(1), Some(CleanupStrength::LightEdit));
    assert_eq!(cleanup_strength_from_code(-1), None);
    assert_eq!(
        voicedrop_cleanup_prompt_for_strength(2),
        Some(system_prompt(CleanupStrength::FormalRewrite))
    );
    assert_eq!(voicedrop_cleanup_prompt_for_strength(9), None);
}

#[test]
fn word_lists_are_split_trimmed_and_blank_free() {
    assert_eq!(
        parse_word_list(" VoiceDrop , whisper.cpp,,  "),
        vec!["VoiceDrop".to_string(), "whisper.cpp".to_string()]
    );
    assert!(parse_word_list("").is_empty());
    assert!(parse_word_list(" , ,").is_empty());
}

#[test]
fn language_settings_reach_the_transcription_config() {
    let mut e = engine();
    e.set_fallback_language(Some("en"));
    e.set_vocabulary(vec!["VoiceDrop".to_string()]);
    let c = e.transcribe_config();
    assert_eq!(c.fallback_language.as_deref(), Some("en"));
    assert_eq!(c.vocabulary, vec!["VoiceDrop".to_string()]);
}

/// Drives a second dictation on an engine whose models are already loaded.
fn record_again(e: &mut Engine) {
    assert_eq!(e.reset(), StatusCode::Success);
    assert_eq!(e.start_recording(), StatusCode::Success);
    assert_eq!(e.finish_start_recording(Ok(())), StatusCode::Success);
    assert_eq!(e.stop_recording(), StatusCode::Success);
    assert_eq!(e.finish_stop_recording(Ok(32_000)), StatusCode::Success);
    assert!(!e.needs_transcriber());
}

#[test]
fn failed_cleanup_clears_an_earlier_sessions_transcript() {
    let mut e = engine();
    e.set_cleanup_provider(CleanupProviderKind::Local);
    record(&mut e);
    e.finish_transcription(Ok("earlier".to_string()));
    assert_eq!(e.finish_local_cleanup_load(Ok(())), StatusCode::Success);
    assert_eq!(e.finish_cleanup(Ok("Earlier.".to_string())), StatusCode::Success);
    assert_eq!(e.last_transcript(), Some("Earlier."));

    record_again(&mut e);
    match e.finish_transcription(Ok("hello".to_string())) {
        CleanupStep::RunLocal { load_model, .. } => assert!(!load_model),
        _ => panic!("expected a local run"),
    }
    assert_eq!(e.finish_cleanup(Err(CleanupError::Timeout)), StatusCode::CleanupFailed);
    assert_eq!(e.state(), SessionState::Error);
    assert_eq!(e.last_transcript(), None);
}

#[test]
fn failed_model_load_and_cloud_settings_clear_an_earlier_transcript() {
    let mut e = engine();
    record(&mut e);
    e.finish_transcription(Ok("earlier".to_string()));
    assert_eq!(e.last_transcript(), Some("earlier"));

    e.set_cleanup_provider(CleanupProviderKind::Local);
    record_again(&mut e);
    e.finish_transcription(Ok("hello".to_string()));
    assert_eq!(
        e.finish_local_cleanup_load(Err(CleanupError::ModelNotFound("/m/qwen.gguf".to_string()))),
        StatusCode::CleanupFailed
    );
    assert_eq!(e.last_transcript(), None);

    let mut f = engine();
    record(&mut f);
    f.finish_transcription(Ok("earlier".to_string()));
    assert_eq!(f.last_transcript(), Some("earlier"));
    f.set_cleanup_provider(CleanupProviderKind::Cloud);
    record_again(&mut f);
    match f.finish_transcription(Ok("hello".to_string())) {
        CleanupStep::Done(code) => assert_eq!(code, StatusCode::CleanupInvalidConfig),
        _ => panic!("expected an invalid configuration"),
    }
    assert_eq!(f.state(), SessionState::Error);
    assert_eq!(f.last_transcript(), None);
}
