use voicedrop_core::models::{
    catalog, catalog_entry_at, find, is_downloaded, lookup, ollama_model_at, ollama_models,
    path_for, to_status, voicedrop_model_catalog_approx_size_bytes, voicedrop_model_catalog_count,
    voicedrop_model_catalog_kind, voicedrop_ollama_model_approx_size_bytes,
    voicedrop_ollama_model_count, ModelError, ModelKind,
};
use voicedrop_core::models::{partial_download_path};

#[test]
fn catalog_ids_are_unique() {
    let entries = catalog();
    let mut ids: Vec<&str> = entries.iter().map(|e| e.id).collect();
    ids.sort_unstable();
    ids.dedup();
    assert_eq!(ids.len(), entries.len());
}

#[test]
fn find_returns_known_entry() {
    assert!(find("whisper-small").is_some());
}

#[test]
fn find_returns_none_for_unknown_id() {
    assert!(find("does-not-exist").is_none());
}

#[test]
fn is_downloaded_false_for_missing_file() {
    let dir = "/nonexistent/VoiceDrop/models";
    let entry = find("llama-3.2-3b-instruct").unwrap();
    if !std::path::Path::new(&path_for(dir, &entry)).is_file() {
        assert!(!is_downloaded(dir, &entry));
    }
}

#[test]
fn catalog_has_one_stt_and_multiple_cleanup_candidates() {
    let entries = catalog();
    let stt_count = entries.iter().filter(|e| e.kind == ModelKind::Stt).count();
    let cleanup_count = entries
        .iter()
        .filter(|e| e.kind == ModelKind::Cleanup)
        .count();
    assert_eq!(stt_count, 1);
    assert!(
        cleanup_count >= 2,
        "expected multiple candidates to compare"
    );
}

#[test]
fn ollama_models_have_unique_names() {
    let models = ollama_models();
    let mut names: Vec<&str> = models.iter().map(|e| e.ollama_name).collect();
    names.sort_unstable();
    names.dedup();
    assert_eq!(names.len(), models.len());
}

#[test]
fn ollama_models_list_is_non_empty() {
    assert!(!ollama_models().is_empty());
}

#[test]
fn find_returns_the_entry_with_that_id() {
    let e = find("qwen2.5-1.5b-instruct").unwrap();
    assert_eq!(e.id, "qwen2.5-1.5b-instruct");
    assert_eq!(e.filename, "qwen2.5-1.5b-instruct-q4_k_m.gguf");
    assert_eq!(e.kind, ModelKind::Cleanup);
}

#[test]
fn path_for_joins_directory_and_filename() {
    let e = find("whisper-small").unwrap();
    assert_eq!(path_for("/home/u/models", &e), "/home/u/models/ggml-small.bin");
    assert_eq!(path_for("/home/u/models/", &e), "/home/u/models/ggml-small.bin");
    assert_eq!(path_for("", &e), "ggml-small.bin");
}

#[test]
fn boundary_lookups_by_index() {
    assert_eq!(voicedrop_model_catalog_count(), 4);
    assert_eq!(voicedrop_model_catalog_kind(0), 0);
    assert_eq!(voicedrop_model_catalog_kind(3), 1);
    assert_eq!(voicedrop_model_catalog_kind(4), -1);
    assert_eq!(voicedrop_model_catalog_kind(-1), -1);
    assert_eq!(voicedrop_model_catalog_approx_size_bytes(2), 986_000_000);
    assert_eq!(voicedrop_model_catalog_approx_size_bytes(-3), 0);
    assert!(catalog_entry_at(7).is_none());
    assert_eq!(catalog_entry_at(1).unwrap().id, "qwen2.5-0.5b-instruct");
    assert_eq!(voicedrop_ollama_model_count(), 3);
    assert_eq!(voicedrop_ollama_model_approx_size_bytes(2), 2_000_000_000);
    assert_eq!(voicedrop_ollama_model_approx_size_bytes(3), 0);
    assert_eq!(ollama_model_at(0).unwrap().ollama_name, "qwen2.5:0.5b");
}

#[test]
fn lookup_reports_unknown_ids() {
    match lookup("does-not-exist") {
        Err(ModelError::UnknownId(id)) => assert_eq!(id, "does-not-exist"),
        _ => panic!("expected an unknown-id error"),
    }
    assert_eq!(lookup("whisper-small").unwrap().id, "whisper-small");
}

#[test]
fn status_codes_of_model_results() {
    assert_eq!(to_status(Ok(())), 0);
    assert_eq!(to_status(Err(ModelError::UnknownId("x".to_string()))), 1);
    assert_eq!(to_status(Err(ModelError::NetworkFailed("x".to_string()))), 2);
    assert_eq!(to_status(Err(ModelError::IoFailed("x".to_string()))), 3);
}

#[test]
fn downloads_stream_into_a_part_file_beside_the_model() {
    let e = find("whisper-small").unwrap();
    assert_eq!(
        partial_download_path("/m", &e),
        "/m/ggml-small.bin.part"
    );
    let q = find("llama-3.2-3b-instruct").unwrap();
    assert_eq!(
        partial_download_path("/m/", &q),
        "/m/Llama-3.2-3B-Instruct-Q4_K_M.gguf.part"
    );
}
