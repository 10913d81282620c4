use voicedrop_core::cleanup::{
    batch_capacity, cleaned_from_choices, context_size, system_prompt, unexpected_response_shape,
    user_prompt, CleanupError, CleanupProvider, CleanupStrength, CloudProvider, NoneProvider,
};
use voicedrop_core::cleanup::{chat_messages, LocalGeneration, MAX_NEW_TOKENS};

#[test]
fn none_provider_passes_transcript_through_unchanged() {
    let provider = NoneProvider;
    let result = provider
        .cleanup("uh, hello   there", CleanupStrength::LightEdit, None)
        .unwrap();
    assert_eq!(result, "uh, hello   there");
}

#[test]
fn strength_levels_produce_distinct_prompts() {
    let verbatim = system_prompt(CleanupStrength::VerbatimClean);
    let light = system_prompt(CleanupStrength::LightEdit);
    let formal = system_prompt(CleanupStrength::FormalRewrite);
    assert_ne!(verbatim, light);
    assert_ne!(light, formal);
    assert_ne!(verbatim, formal);
}

#[test]
fn verbatim_prompt_forbids_restructuring() {
    assert!(system_prompt(CleanupStrength::VerbatimClean).contains("do not merge"));
}

#[test]
fn cloud_provider_rejects_empty_base_url() {
    let result = CloudProvider::new(
        String::new(),
        "sk-test".to_string(),
        "gpt-4o-mini".to_string(),
    );
    assert!(matches!(result, Err(CleanupError::InvalidConfig(_))));
}

#[test]
fn cloud_provider_rejects_empty_api_key() {
    let result = CloudProvider::new(
        "https://api.openai.com/v1".to_string(),
        String::new(),
        "gpt-4o-mini".to_string(),
    );
    assert!(matches!(result, Err(CleanupError::InvalidConfig(_))));
}

#[test]
fn cloud_provider_accepts_arbitrary_endpoint() {
    let result = CloudProvider::new(
        "http://localhost:11434/v1".to_string(),
        "unused".to_string(),
        "qwen2.5:0.5b".to_string(),
    );
    assert!(result.is_ok());
}

#[test]
fn endpoint_url_strips_trailing_slash() {
    let provider = CloudProvider::new(
        "https://api.example.com/v1/".to_string(),
        "key".to_string(),
        "model".to_string(),
    )
    .unwrap();
    assert_eq!(
        provider.endpoint_url(),
        "https://api.example.com/v1/chat/completions"
    );
}

#[test]
fn build_request_includes_strength_prompt_and_transcript() {
    let provider = CloudProvider::new(
        "https://api.example.com/v1".to_string(),
        "key".to_string(),
        "model".to_string(),
    )
    .unwrap();
    let request = provider.build_request("hello world", CleanupStrength::VerbatimClean, None);
    assert_eq!(request.messages.len(), 2);
    assert_eq!(request.messages[0].role, "system");
    assert_eq!(
        request.messages[0].content,
        system_prompt(CleanupStrength::VerbatimClean)
    );
    assert_eq!(request.messages[1].role, "user");
    assert!(request.messages[1].content.contains("hello world"));
}

#[test]
fn build_request_includes_language_when_given() {
    let provider = CloudProvider::new(
        "https://api.example.com/v1".to_string(),
        "key".to_string(),
        "model".to_string(),
    )
    .unwrap();
    let request = provider.build_request("bonjour", CleanupStrength::VerbatimClean, Some("fr"));
    assert!(request.messages[1].content.contains("Language: fr"));
}

#[test]
fn blank_base_url_and_key_are_rejected_with_their_messages() {
    match CloudProvider::new("   ".to_string(), "k".to_string(), "m".to_string()) {
        Err(CleanupError::InvalidConfig(m)) => assert_eq!(m, "cloud cleanup base URL is empty"),
        _ => panic!("expected an invalid-config error"),
    }
    match CloudProvider::new("http://x".to_string(), " \t".to_string(), "m".to_string()) {
        Err(CleanupError::InvalidConfig(m)) => assert_eq!(m, "cloud cleanup API key is empty"),
        _ => panic!("expected an invalid-config error"),
    }
}

#[test]
fn endpoint_url_strips_every_trailing_slash_and_keeps_inner_ones() {
    let provider = CloudProvider::new(
        "http://localhost:11434/v1///".to_string(),
        "k".to_string(),
        "m".to_string(),
    )
    .unwrap();
    assert_eq!(
        provider.endpoint_url(),
        "http://localhost:11434/v1/chat/completions"
    );
}

#[test]
fn request_messages_are_exact() {
    let provider = CloudProvider::new(
        "https://api.example.com/v1".to_string(),
        "sk".to_string(),
        "gpt".to_string(),
    )
    .unwrap();
    let request = provider.build_request("hi", CleanupStrength::FormalRewrite, Some("de"));
    assert_eq!(request.model, "gpt");
    assert_eq!(
        request.messages[0].content,
        system_prompt(CleanupStrength::FormalRewrite)
    );
    assert_eq!(request.messages[1].content, "Language: de\nTranscript: hi");
    assert_eq!(provider.authorization(), "Bearer sk");
}

#[test]
fn user_prompt_without_language() {
    assert_eq!(user_prompt("hello", None), "Transcript: hello");
    assert_eq!(user_prompt("x", Some("en")), "Language: en\nTranscript: x");
}

#[test]
fn cleaned_transcript_is_first_choice_trimmed() {
    let r = cleaned_from_choices(&vec!["  Hello there. \n".to_string(), "other".to_string()]);
    assert_eq!(r.unwrap(), "Hello there.");
    match cleaned_from_choices(&vec![]) {
        Err(CleanupError::InferenceFailed(m)) => assert_eq!(m, "response had no choices"),
        _ => panic!("expected an inference failure"),
    }
}

#[test]
fn unexpected_shape_error_names_the_detail() {
    match unexpected_response_shape("missing field `choices`") {
        CleanupError::InferenceFailed(m) => assert_eq!(
            m,
            "response did not match the expected OpenAI-compatible shape: missing field `choices`"
        ),
        _ => panic!("expected an inference failure"),
    }
}

#[test]
fn context_and_batch_sizes_cover_prompt_and_budget() {
    assert_eq!(context_size(100), 612);
    assert_eq!(context_size(0), 512);
    assert_eq!(batch_capacity(100), 512);
    assert_eq!(batch_capacity(900), 900);
}

#[test]
fn all_prompts_share_the_cleanup_preamble() {
    for s in [
        CleanupStrength::VerbatimClean,
        CleanupStrength::LightEdit,
        CleanupStrength::FormalRewrite,
    ] {
        assert!(system_prompt(s).starts_with("You clean up dictated speech transcripts."));
        assert!(system_prompt(s).ends_with("Output only the cleaned transcript, nothing else."));
    }
}

#[test]
fn local_and_cloud_providers_share_the_conversation() {
    let m = chat_messages("bonjour", CleanupStrength::LightEdit, Some("fr"));
    assert_eq!(m.len(), 2);
    assert_eq!(m[0].role, "system");
    assert_eq!(m[0].content, system_prompt(CleanupStrength::LightEdit));
    assert_eq!(m[1].role, "user");
    assert_eq!(m[1].content, "Language: fr\nTranscript: bonjour");
}

#[test]
fn local_generation_stops_at_end_of_generation_or_budget() {
    let mut g = LocalGeneration::new(10);
    assert!(g.wants_token());
    assert_eq!(g.push_piece(" Hello"), 10);
    assert_eq!(g.push_piece(" there. "), 11);
    g.end_of_generation();
    assert!(!g.wants_token());
    assert_eq!(g.cleaned(), "Hello there.");

    let mut budget = LocalGeneration::new(0);
    let mut n = 0;
    while budget.wants_token() {
        budget.push_piece("a");
        n += 1;
    }
    assert_eq!(n, MAX_NEW_TOKENS);
    assert_eq!(budget.cleaned().len(), MAX_NEW_TOKENS);
}
