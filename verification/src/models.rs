//! The curated catalog of downloadable models (the speech-to-text model and
//! the local cleanup candidates) and the model names suggested for an
//! Ollama-backed cleanup pass. Downloading and deleting files happen at the
//! edge; this module answers which entry an id or index names and where its
//! file lives.
use vstd::prelude::*;
use crate::text::str_equal;

verus! {

#[derive(Debug, Clone, Copy, PartialEq, Eq, Structural)]
pub enum ModelKind {
    Stt,
    Cleanup,
}

#[derive(Debug, Clone, Copy)]
pub struct ModelCatalogEntry {
    /// Stable identifier: the on-disk file's lookup key; never changes once shipped.
    pub id: &'static str,
    pub display_name: &'static str,
    pub kind: ModelKind,
    pub url: &'static str,
    pub filename: &'static str,
    /// Approximate download size, a label for display, not read from the server.
    pub approx_size_bytes: u64,
}

/// The catalog: one speech-to-text model and three cleanup candidates.
pub open spec fn catalog_spec() -> Seq<ModelCatalogEntry> {
    seq![
        ModelCatalogEntry {
            id: "whisper-small",
            display_name: "Whisper Small",
            kind: ModelKind::Stt,
            url: "https://huggingface.co/ggerganov/whisper.cpp/resolve/main/ggml-small.bin",
            filename: "ggml-small.bin",
            approx_size_bytes: 487_000_000,
        },
        ModelCatalogEntry {
            id: "qwen2.5-0.5b-instruct",
            display_name: "Qwen2.5 0.5B Instruct (fastest)",
            kind: ModelKind::Cleanup,
            url: "https://huggingface.co/Qwen/Qwen2.5-0.5B-Instruct-GGUF/resolve/main/qwen2.5-0.5b-instruct-q4_k_m.gguf",
            filename: "qwen2.5-0.5b-instruct-q4_k_m.gguf",
            approx_size_bytes: 491_000_000,
        },
        ModelCatalogEntry {
            id: "qwen2.5-1.5b-instruct",
            display_name: "Qwen2.5 1.5B Instruct (recommended)",
            kind: ModelKind::Cleanup,
            url: "https://huggingface.co/Qwen/Qwen2.5-1.5B-Instruct-GGUF/resolve/main/qwen2.5-1.5b-instruct-q4_k_m.gguf",
            filename: "qwen2.5-1.5b-instruct-q4_k_m.gguf",
            approx_size_bytes: 986_000_000,
        },
        ModelCatalogEntry {
            id: "llama-3.2-3b-instruct",
            display_name: "Llama 3.2 3B Instruct (largest, less faithful to strength)",
            kind: ModelKind::Cleanup,
            url: "https://huggingface.co/bartowski/Llama-3.2-3B-Instruct-GGUF/resolve/main/Llama-3.2-3B-Instruct-Q4_K_M.gguf",
            filename: "Llama-3.2-3B-Instruct-Q4_K_M.gguf",
            approx_size_bytes: 2_020_000_000,
        },
    ]
}

/// The full catalog, in order.
pub fn catalog() -> (v: Vec<ModelCatalogEntry>)
    ensures
        v@ == catalog_spec(),
{
    let v = vec![
        ModelCatalogEntry {
            id: "whisper-small",
            display_name: "Whisper Small",
            kind: ModelKind::Stt,
            url: "https://huggingface.co/ggerganov/whisper.cpp/resolve/main/ggml-small.bin",
            filename: "ggml-small.bin",
            approx_size_bytes: 487_000_000,
        },
        ModelCatalogEntry {
            id: "qwen2.5-0.5b-instruct",
            display_name: "Qwen2.5 0.5B Instruct (fastest)",
            kind: ModelKind::Cleanup,
            url: "https://huggingface.co/Qwen/Qwen2.5-0.5B-Instruct-GGUF/resolve/main/qwen2.5-0.5b-instruct-q4_k_m.gguf",
            filename: "qwen2.5-0.5b-instruct-q4_k_m.gguf",
            approx_size_bytes: 491_000_000,
        },
        ModelCatalogEntry {
            id: "qwen2.5-1.5b-instruct",
            display_name: "Qwen2.5 1.5B Instruct (recommended)",
            kind: ModelKind::Cleanup,
            url: "https://huggingface.co/Qwen/Qwen2.5-1.5B-Instruct-GGUF/resolve/main/qwen2.5-1.5b-instruct-q4_k_m.gguf",
            filename: "qwen2.5-1.5b-instruct-q4_k_m.gguf",
            approx_size_bytes: 986_000_000,
        },
        ModelCatalogEntry {
            id: "llama-3.2-3b-instruct",
            display_name: "Llama 3.2 3B Instruct (largest, less faithful to strength)",
            kind: ModelKind::Cleanup,
            url: "https://huggingface.co/bartowski/Llama-3.2-3B-Instruct-GGUF/resolve/main/Llama-3.2-3B-Instruct-Q4_K_M.gguf",
            filename: "Llama-3.2-3B-Instruct-Q4_K_M.gguf",
            approx_size_bytes: 2_020_000_000,
        },
    ];
    v
}

/// The catalog entry with id `id`, if there is one.
pub fn find(id: &str) -> (r: Option<ModelCatalogEntry>)
    ensures
        match r {
            Some(e) => exists|i: int|
                0 <= i < catalog_spec().len() && catalog_spec()[i] == e && e.id@ == id@,
            None => forall|i: int|
                0 <= i < catalog_spec().len() ==> (#[trigger] catalog_spec()[i]).id@ != id@,
        },
{
    let entries = catalog();
    let mut i: usize = 0;
    while i < entries.len()
        invariant
            entries@ == catalog_spec(),
            i <= entries@.len(),
            forall|k: int| 0 <= k < i ==> (#[trigger] catalog_spec()[k]).id@ != id@,
        decreases entries@.len() - i,
    {
        if str_equal(entries[i].id, id) {
            return Some(entries[i]);
        }
        i = i + 1;
    }
    None
}

/// No two catalog entries share an id.
pub proof fn lemma_catalog_ids_unique()
    ensures
        forall|i: int, j: int|
            0 <= i < j < catalog_spec().len() ==> (#[trigger] catalog_spec()[i]).id@
                != (#[trigger] catalog_spec()[j]).id@,
{
    reveal_strlit("whisper-small");
    reveal_strlit("qwen2.5-0.5b-instruct");
    reveal_strlit("qwen2.5-1.5b-instruct");
    reveal_strlit("llama-3.2-3b-instruct");
    let c = catalog_spec();
    assert(c[0].id@.len() != c[1].id@.len());
    assert(c[0].id@.len() != c[2].id@.len());
    assert(c[0].id@.len() != c[3].id@.len());
    assert(c[1].id@[8] != c[2].id@[8]);
    assert(c[1].id@[0] != c[3].id@[0]);
    assert(c[2].id@[0] != c[3].id@[0]);
}

/// The catalog holds exactly one speech-to-text model and several cleanup
/// candidates to compare.
pub proof fn lemma_catalog_has_one_stt_and_several_cleanup_models()
    ensures
        catalog_spec().filter(|e: ModelCatalogEntry| e.kind == ModelKind::Stt).len() == 1,
        catalog_spec().filter(|e: ModelCatalogEntry| e.kind == ModelKind::Cleanup).len() >= 2,
{
    reveal_with_fuel(Seq::filter, 5);
    let c = catalog_spec();
    assert(c.take(0) =~= seq![]);
    assert(c =~= c.take(4));
    assert(c.take(4).drop_last() =~= c.take(3));
    assert(c.take(3).drop_last() =~= c.take(2));
    assert(c.take(2).drop_last() =~= c.take(1));
    assert(c.take(1).drop_last() =~= c.take(0));
}

/// The catalog entry at `index`, if `index` is in range.
pub fn catalog_entry_at(index: i32) -> (r: Option<ModelCatalogEntry>)
    ensures
        0 <= index < catalog_spec().len() ==> r == Some(catalog_spec()[index as int]),
        !(0 <= index < catalog_spec().len()) ==> r is None,
{
    let entries = catalog();
    if index < 0 {
        return None;
    }
    let i: usize = index as usize;
    if i < entries.len() {
        Some(entries[i])
    } else {
        None
    }
}

/// Number of catalog entries.
pub fn voicedrop_model_catalog_count() -> (r: i32)
    ensures
        r == catalog_spec().len(),
{
    let entries = catalog();
    entries.len() as i32
}

/// Entry `index`'s kind: 0 for speech-to-text, 1 for cleanup, -1 when
/// `index` is out of range.
pub fn voicedrop_model_catalog_kind(index: i32) -> (r: i32)
    ensures
        0 <= index < catalog_spec().len() ==> r == (if catalog_spec()[index as int].kind
            == ModelKind::Stt {
            0int
        } else {
            1int
        }),
        !(0 <= index < catalog_spec().len()) ==> r == -1,
{
    match catalog_entry_at(index) {
        Some(e) => match e.kind {
            ModelKind::Stt => 0,
            ModelKind::Cleanup => 1,
        },
        None => -1,
    }
}

/// Entry `index`'s approximate download size in bytes, or 0 when `index` is
/// out of range.
pub fn voicedrop_model_catalog_approx_size_bytes(index: i32) -> (r: u64)
    ensures
        0 <= index < catalog_spec().len() ==> r == catalog_spec()[index as int].approx_size_bytes,
        !(0 <= index < catalog_spec().len()) ==> r == 0,
{
    match catalog_entry_at(index) {
        Some(e) => e.approx_size_bytes,
        None => 0,
    }
}

/// A model name to suggest when the cleanup pass goes to a local Ollama
/// server; Ollama itself manages the download.
#[derive(Debug, Clone, Copy)]
pub struct OllamaModelSuggestion {
    pub ollama_name: &'static str,
    pub display_name: &'static str,
    pub approx_size_bytes: u64,
}

/// The suggested Ollama models, smallest and fastest first.
pub open spec fn ollama_models_spec() -> Seq<OllamaModelSuggestion> {
    seq![
        OllamaModelSuggestion {
            ollama_name: "qwen2.5:0.5b",
            display_name: "Qwen2.5 0.5B (fastest)",
            approx_size_bytes: 397_000_000,
        },
        OllamaModelSuggestion {
            ollama_name: "qwen2.5:1.5b",
            display_name: "Qwen2.5 1.5B (recommended)",
            approx_size_bytes: 986_000_000,
        },
        OllamaModelSuggestion {
            ollama_name: "llama3.2:3b",
            display_name: "Llama 3.2 3B (largest, less faithful to strength)",
            approx_size_bytes: 2_000_000_000,
        },
    ]
}

/// The suggested Ollama models, in order.
pub fn ollama_models() -> (v: Vec<OllamaModelSuggestion>)
    ensures
        v@ == ollama_models_spec(),
{
    let v = vec![
        OllamaModelSuggestion {
            ollama_name: "qwen2.5:0.5b",
            display_name: "Qwen2.5 0.5B (fastest)",
            approx_size_bytes: 397_000_000,
        },
        OllamaModelSuggestion {
            ollama_name: "qwen2.5:1.5b",
            display_name: "Qwen2.5 1.5B (recommended)",
            approx_size_bytes: 986_000_000,
        },
        OllamaModelSuggestion {
            ollama_name: "llama3.2:3b",
            display_name: "Llama 3.2 3B (largest, less faithful to strength)",
            approx_size_bytes: 2_000_000_000,
        },
    ];
    v
}

/// The list is not empty and no two suggestions share a name.
pub proof fn lemma_ollama_models_non_empty_and_unique()
    ensures
        ollama_models_spec().len() > 0,
        forall|i: int, j: int|
            0 <= i < j < ollama_models_spec().len() ==> (#[trigger] ollama_models_spec()[i]).ollama_name@
                != (#[trigger] ollama_models_spec()[j]).ollama_name@,
{
    reveal_strlit("qwen2.5:0.5b");
    reveal_strlit("qwen2.5:1.5b");
    reveal_strlit("llama3.2:3b");
    let m = ollama_models_spec();
    assert(m[0].ollama_name@[8] != m[1].ollama_name@[8]);
    assert(m[0].ollama_name@.len() != m[2].ollama_name@.len());
    assert(m[1].ollama_name@.len() != m[2].ollama_name@.len());
}

/// The suggestion at `index`, if `index` is in range.
pub fn ollama_model_at(index: i32) -> (r: Option<OllamaModelSuggestion>)
    ensures
        0 <= index < ollama_models_spec().len() ==> r == Some(ollama_models_spec()[index as int]),
        !(0 <= index < ollama_models_spec().len()) ==> r is None,
{
    let models = ollama_models();
    if index < 0 {
        return None;
    }
    let i: usize = index as usize;
    if i < models.len() {
        Some(models[i])
    } else {
        None
    }
}

/// Number of suggested Ollama models.
pub fn voicedrop_ollama_model_count() -> (r: i32)
    ensures
        r == ollama_models_spec().len(),
{
    let models = ollama_models();
    models.len() as i32
}

/// Suggestion `index`'s approximate size in bytes, or 0 when out of range.
pub fn voicedrop_ollama_model_approx_size_bytes(index: i32) -> (r: u64)
    ensures
        0 <= index < ollama_models_spec().len() ==> r == ollama_models_spec()[index as int].approx_size_bytes,
        !(0 <= index < ollama_models_spec().len()) ==> r == 0,
{
    match ollama_model_at(index) {
        Some(m) => m.approx_size_bytes,
        None => 0,
    }
}

#[derive(Debug)]
pub enum ModelError {
    UnknownId(String),
    NetworkFailed(String),
    IoFailed(String),
}

/// The status codes of the model-management operations.
#[derive(Debug, Clone, Copy, PartialEq, Eq, Structural)]
pub enum ModelStatusCode {
    /// The operation succeeded.
    Success,
    UnknownId,
    NetworkFailed,
    IoFailed,
}

impl ModelStatusCode {
    /// The number that stands for the status across the foreign-function boundary.
    pub fn code(self) -> (r: i32)
        ensures
            r == match self {
                ModelStatusCode::Success => 0int,
                ModelStatusCode::UnknownId => 1int,
                ModelStatusCode::NetworkFailed => 2int,
                ModelStatusCode::IoFailed => 3int,
            },
    {
        match self {
            ModelStatusCode::Success => 0,
            ModelStatusCode::UnknownId => 1,
            ModelStatusCode::NetworkFailed => 2,
            ModelStatusCode::IoFailed => 3,
        }
    }
}

/// The status code of a model operation's result.
pub fn to_status(result: Result<(), ModelError>) -> (r: i32)
    ensures
        r == match result {
            Ok(()) => 0int,
            Err(ModelError::UnknownId(_)) => 1int,
            Err(ModelError::NetworkFailed(_)) => 2int,
            Err(ModelError::IoFailed(_)) => 3int,
        },
{
    match result {
        Ok(()) => ModelStatusCode::Success.code(),
        Err(ModelError::UnknownId(_)) => ModelStatusCode::UnknownId.code(),
        Err(ModelError::NetworkFailed(_)) => ModelStatusCode::NetworkFailed.code(),
        Err(ModelError::IoFailed(_)) => ModelStatusCode::IoFailed.code(),
    }
}

/// The catalog entry `id` names, or the unknown-id error that downloading or
/// deleting an unknown model gives.
pub fn lookup(id: &str) -> (r: Result<ModelCatalogEntry, ModelError>)
    ensures
        match r {
            Ok(e) => exists|i: int|
                0 <= i < catalog_spec().len() && catalog_spec()[i] == e && e.id@ == id@,
            Err(ModelError::UnknownId(s)) => s@ == id@ && forall|i: int|
                0 <= i < catalog_spec().len() ==> (#[trigger] catalog_spec()[i]).id@ != id@,
            Err(_) => false,
        },
{
    match find(id) {
        Some(e) => Ok(e),
        None => Err(ModelError::UnknownId(String::from_str(id))),
    }
}

/// A file name under a directory, as `Path::join` forms it for a relative
/// file name: a separator is put in only where the directory is non-empty and
/// does not already end in one.
pub open spec fn join_path(dir: Seq<char>, file: Seq<char>) -> Seq<char> {
    if dir.len() == 0 || dir.last() == '/' {
        dir + file
    } else {
        dir + "/"@ + file
    }
}

/// Where the entry's file lives inside the models directory `models_dir`
/// (whether or not it has been downloaded yet).
pub fn path_for(models_dir: &str, entry: &ModelCatalogEntry) -> (r: String)
    ensures
        r@ == join_path(models_dir@, entry.filename@),
{
    let n = models_dir.unicode_len();
    if n == 0 {
        return String::from_str(entry.filename);
    }
    let last = models_dir.get_char(n - 1);
    let dir = String::from_str(models_dir);
    if last == '/' {
        dir.concat(entry.filename)
    } else {
        let d = dir.concat("/");
        d.concat(entry.filename)
    }
}

/// `Path::is_file`: whether a regular file exists at `path`. It depends on
/// the disk, so nothing is stated of its result.
#[verifier::external_body]
fn path_is_file(path: &str) -> bool {
    std::path::Path::new(path).is_file()
}

/// Whether the entry's file is present in the models directory `models_dir`.
/// The answer comes from the disk; the file looked at is `path_for`'s.
pub fn is_downloaded(models_dir: &str, entry: &ModelCatalogEntry) -> bool {
    let path = path_for(models_dir, entry);
    path_is_file(path.as_str())
}

/// Whether a file name has an extension in the sense of `Path::extension`:
/// a dot after its first character.
pub open spec fn has_extension(file: Seq<char>) -> bool {
    exists|i: int| 0 < i < file.len() && file[i] == '.'
}

/// The temporary file a download streams into before it is renamed into
/// place: the entry's path with `.part` added to its extension (`.tmp.part`
/// where the file name has none), so an interrupted download never leaves a
/// corrupt file at the real path.
pub fn partial_download_path(models_dir: &str, entry: &ModelCatalogEntry) -> (r: String)
    ensures
        has_extension(entry.filename@) ==> r@ == join_path(models_dir@, entry.filename@)
            + ".part"@,
        !has_extension(entry.filename@) ==> r@ == join_path(models_dir@, entry.filename@)
            + ".tmp.part"@,
{
    let path = path_for(models_dir, entry);
    let n = entry.filename.unicode_len();
    let mut i: usize = 1;
    let mut found = false;
    while i < n
        invariant
            n == entry.filename@.len(),
            1 <= i || n == 0,
            found == exists|k: int| 0 < k < i && k < n && entry.filename@[k] == '.',
        decreases n - i,
    {
        if entry.filename.get_char(i) == '.' {
            found = true;
        }
        i = i + 1;
    }
    if found {
        path.concat(".part")
    } else {
        path.concat(".tmp.part")
    }
}

} // verus!
