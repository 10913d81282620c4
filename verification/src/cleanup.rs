//! The cleanup pass: turns a raw transcript into a cleaned transcript. This
//! module holds what every provider shares: the strength levels and their
//! prompts, the user message, the pass-through provider, and the request,
//! endpoint and answer handling of the OpenAI-compatible cloud provider. The
//! model runs and the network exchange themselves happen at the edge.
use vstd::prelude::*;
use crate::text::{trim, trim_end_char, trim_end_matches_char, trim_str};

verus! {

/// Hard cap on generated tokens for the local model, so a misbehaving model
/// cannot hang a dictation session.
pub const MAX_NEW_TOKENS: usize = 512;

/// A failed cleanup pass. Missing or invalid setup is `InvalidConfig`; a
/// request that went out but failed is `NetworkFailed`; a model or answer that
/// failed is `InferenceFailed`.
#[derive(Debug)]
pub enum CleanupError {
    Timeout,
    InferenceFailed(String),
    NetworkFailed(String),
    InvalidConfig(String),
    /// The local model file is missing; the path is given.
    ModelNotFound(String),
}

/// How aggressive the cleanup pass is. A global preference.
#[derive(Debug, Clone, Copy, PartialEq, Eq, Structural)]
pub enum CleanupStrength {
    /// Disfluencies and grammar only; wording and structure are kept.
    VerbatimClean,
    /// Also merges fragments and tightens wordy phrasing.
    LightEdit,
    /// Heavier restructuring.
    FormalRewrite,
}

/// The system prompt of each strength level.
pub open spec fn system_prompt_text(strength: CleanupStrength) -> Seq<char> {
    match strength {
        CleanupStrength::VerbatimClean => "You clean up dictated speech transcripts. Remove filler words and disfluencies (\"uh\", \"um\", false starts), add punctuation, and fix grammar. Preserve the original wording, structure, and sentence boundaries exactly — do not merge, split, reorder, or rephrase sentences, and do not change the meaning. Output only the cleaned transcript, nothing else."@,
        CleanupStrength::LightEdit => "You clean up dictated speech transcripts. Remove filler words and disfluencies, add punctuation, and fix grammar. You may merge sentence fragments and tighten wordy phrasing, but do not change the meaning or add information that wasn't said. Output only the cleaned transcript, nothing else."@,
        CleanupStrength::FormalRewrite => "You clean up dictated speech transcripts. Remove filler words and disfluencies, add punctuation, fix grammar, and restructure the text into clear, well-organized prose suitable for a formal document. Do not change the meaning or add information that wasn't said. Output only the cleaned transcript, nothing else."@,
    }
}

/// The system prompt for a strength level, shared by every transforming
/// provider so that they cannot drift into different cleanup behaviour.
pub fn system_prompt(strength: CleanupStrength) -> (r: &'static str)
    ensures
        r@ == system_prompt_text(strength),
{
    match strength {
        CleanupStrength::VerbatimClean => "You clean up dictated speech transcripts. Remove filler words and disfluencies (\"uh\", \"um\", false starts), add punctuation, and fix grammar. Preserve the original wording, structure, and sentence boundaries exactly — do not merge, split, reorder, or rephrase sentences, and do not change the meaning. Output only the cleaned transcript, nothing else.",
        CleanupStrength::LightEdit => "You clean up dictated speech transcripts. Remove filler words and disfluencies, add punctuation, and fix grammar. You may merge sentence fragments and tighten wordy phrasing, but do not change the meaning or add information that wasn't said. Output only the cleaned transcript, nothing else.",
        CleanupStrength::FormalRewrite => "You clean up dictated speech transcripts. Remove filler words and disfluencies, add punctuation, fix grammar, and restructure the text into clear, well-organized prose suitable for a formal document. Do not change the meaning or add information that wasn't said. Output only the cleaned transcript, nothing else.",
    }
}

/// The three strength levels have three different prompts.
pub proof fn lemma_strength_prompts_distinct(a: CleanupStrength, b: CleanupStrength)
    ensures
        a != b ==> system_prompt_text(a) != system_prompt_text(b),
{
    reveal_strlit("You clean up dictated speech transcripts. Remove filler words and disfluencies (\"uh\", \"um\", false starts), add punctuation, and fix grammar. Preserve the original wording, structure, and sentence boundaries exactly — do not merge, split, reorder, or rephrase sentences, and do not change the meaning. Output only the cleaned transcript, nothing else.");
    reveal_strlit("You clean up dictated speech transcripts. Remove filler words and disfluencies, add punctuation, and fix grammar. You may merge sentence fragments and tighten wordy phrasing, but do not change the meaning or add information that wasn't said. Output only the cleaned transcript, nothing else.");
    reveal_strlit("You clean up dictated speech transcripts. Remove filler words and disfluencies, add punctuation, fix grammar, and restructure the text into clear, well-organized prose suitable for a formal document. Do not change the meaning or add information that wasn't said. Output only the cleaned transcript, nothing else.");
    assert(system_prompt_text(CleanupStrength::VerbatimClean).len() == 350);
    assert(system_prompt_text(CleanupStrength::LightEdit).len() == 291);
    assert(system_prompt_text(CleanupStrength::FormalRewrite).len() == 312);
}

/// The verbatim prompt forbids merging sentences: it holds "do not merge".
pub proof fn lemma_verbatim_prompt_forbids_merging()
    ensures
        system_prompt_text(CleanupStrength::VerbatimClean).subrange(217, 229) == "do not merge"@,
{
    reveal_strlit("You clean up dictated speech transcripts. Remove filler words and disfluencies (\"uh\", \"um\", false starts), add punctuation, and fix grammar. Preserve the original wording, structure, and sentence boundaries exactly — do not merge, split, reorder, or rephrase sentences, and do not change the meaning. Output only the cleaned transcript, nothing else.");
    reveal_strlit("do not merge");
    assert(system_prompt_text(CleanupStrength::VerbatimClean).subrange(217, 229) =~= "do not merge"@);
}

/// Whether `t` occurs in `s` as consecutive characters.
pub open spec fn contains_text(s: Seq<char>, t: Seq<char>) -> bool {
    exists|i: int| 0 <= i && i + t.len() <= s.len() && #[trigger] s.subrange(i, i + t.len()) == t
}

/// No run of `s` starts "rest" (so neither "restructure" nor anything else
/// beginning so occurs in it).
proof fn lemma_no_rest_implies_no_restructure(s: Seq<char>)
    requires
        forall|i: int|
            0 <= i && i + 4 <= s.len() ==> !(#[trigger] s[i] == 'r' && s[i + 1] == 'e' && s[i + 2]
                == 's' && s[i + 3] == 't'),
    ensures
        !contains_text(s, "restructure"@),
{
    reveal_strlit("restructure");
    let t = "restructure"@;
    if contains_text(s, t) {
        let i = choose|i: int| 0 <= i && i + t.len() <= s.len() && #[trigger] s.subrange(i, i + t.len()) == t;
        assert(s.subrange(i, i + 11)[0] == s[i]);
        assert(s.subrange(i, i + 11)[1] == s[i + 1]);
        assert(s.subrange(i, i + 11)[2] == s[i + 2]);
        assert(s.subrange(i, i + 11)[3] == s[i + 3]);
    }
}

/// Each strength's prompt says what that strength does. Light editing may
/// merge fragments and tighten phrasing but never restructures; a formal
/// rewrite restructures into formal prose; verbatim cleanup forbids merging
/// and restructuring. Only light editing allows merging fragments.
pub proof fn lemma_prompts_describe_their_strength()
    ensures
        contains_text(
            system_prompt_text(CleanupStrength::LightEdit),
            "You may merge sentence fragments and tighten wordy phrasing"@,
        ),
        !contains_text(system_prompt_text(CleanupStrength::LightEdit), "restructure"@),
        contains_text(
            system_prompt_text(CleanupStrength::FormalRewrite),
            "restructure the text into clear, well-organized prose suitable for a formal document"@,
        ),
        contains_text(system_prompt_text(CleanupStrength::VerbatimClean), "do not merge"@),
        !contains_text(system_prompt_text(CleanupStrength::VerbatimClean), "restructure"@),
{
    reveal_strlit("You clean up dictated speech transcripts. Remove filler words and disfluencies (\"uh\", \"um\", false starts), add punctuation, and fix grammar. Preserve the original wording, structure, and sentence boundaries exactly — do not merge, split, reorder, or rephrase sentences, and do not change the meaning. Output only the cleaned transcript, nothing else.");
    reveal_strlit("You clean up dictated speech transcripts. Remove filler words and disfluencies, add punctuation, and fix grammar. You may merge sentence fragments and tighten wordy phrasing, but do not change the meaning or add information that wasn't said. Output only the cleaned transcript, nothing else.");
    reveal_strlit("You clean up dictated speech transcripts. Remove filler words and disfluencies, add punctuation, fix grammar, and restructure the text into clear, well-organized prose suitable for a formal document. Do not change the meaning or add information that wasn't said. Output only the cleaned transcript, nothing else.");
    reveal_strlit("You may merge sentence fragments and tighten wordy phrasing");
    reveal_strlit("restructure the text into clear, well-organized prose suitable for a formal document");
    reveal_strlit("do not merge");
    let v = system_prompt_text(CleanupStrength::VerbatimClean);
    let l = system_prompt_text(CleanupStrength::LightEdit);
    let f = system_prompt_text(CleanupStrength::FormalRewrite);
    let merge = "You may merge sentence fragments and tighten wordy phrasing"@;
    let formal = "restructure the text into clear, well-organized prose suitable for a formal document"@;
    assert(l.subrange(114, 114 + merge.len() as int) =~= merge);
    assert(f.subrange(114, 114 + formal.len() as int) =~= formal);
    let no_merge = "do not merge"@;
    assert(v.subrange(217, 217 + no_merge.len() as int) =~= no_merge);
    lemma_no_rest_implies_no_restructure(l);
    lemma_no_rest_implies_no_restructure(v);
}

/// The user message: the language line when a language is given, then the
/// transcript.
pub open spec fn user_prompt_text(raw_transcript: Seq<char>, language: Option<Seq<char>>) -> Seq<
    char,
> {
    match language {
        Some(lang) => "Language: "@ + lang + "\nTranscript: "@ + raw_transcript,
        None => "Transcript: "@ + raw_transcript,
    }
}

pub open spec fn opt_str_view(o: Option<&str>) -> Option<Seq<char>> {
    match o {
        Some(s) => Some(s@),
        None => None,
    }
}

/// The user message for a raw transcript and an optional language code.
pub fn user_prompt(raw_transcript: &str, language: Option<&str>) -> (r: String)
    ensures
        r@ == user_prompt_text(raw_transcript@, opt_str_view(language)),
{
    match language {
        Some(lang) => {
            let mut s = String::from_str("Language: ");
            s.append(lang);
            s.append("\nTranscript: ");
            s.append(raw_transcript);
            s
        },
        None => {
            let mut s = String::from_str("Transcript: ");
            s.append(raw_transcript);
            s
        },
    }
}

/// Raw transcript, strength and language in; cleaned transcript out. One
/// method, implemented per provider, so switching providers is a runtime
/// configuration change.
pub trait CleanupProvider {
    fn cleanup(
        &self,
        raw_transcript: &str,
        strength: CleanupStrength,
        language: Option<&str>,
    ) -> Result<String, CleanupError>;
}

/// Passes the raw transcript through unchanged: no model and no key needed.
pub struct NoneProvider;

impl CleanupProvider for NoneProvider {
    fn cleanup(
        &self,
        raw_transcript: &str,
        _strength: CleanupStrength,
        _language: Option<&str>,
    ) -> (r: Result<String, CleanupError>)
        ensures
            r matches Ok(s) && s@ == raw_transcript@,
    {
        Ok(String::from_str(raw_transcript))
    }
}

/// One chat message of an OpenAI-compatible request.
#[derive(Debug, Clone)]
pub struct ChatMessage {
    pub role: String,
    pub content: String,
}

/// The body of an OpenAI-compatible `/chat/completions` request.
#[derive(Debug)]
pub struct ChatRequest {
    pub model: String,
    pub messages: Vec<ChatMessage>,
}

/// `messages` are the two messages of every transforming provider: the
/// strength's system prompt, then the user message.
pub open spec fn is_chat(
    messages: Seq<ChatMessage>,
    raw_transcript: Seq<char>,
    strength: CleanupStrength,
    language: Option<Seq<char>>,
) -> bool {
    &&& messages.len() == 2
    &&& messages[0].role@ == "system"@
    &&& messages[0].content@ == system_prompt_text(strength)
    &&& messages[1].role@ == "user"@
    &&& messages[1].content@ == user_prompt_text(raw_transcript, language)
}

/// The conversation handed to a model: the system prompt of the strength,
/// then the user message.
pub fn chat_messages(raw_transcript: &str, strength: CleanupStrength, language: Option<&str>) -> (r:
    Vec<ChatMessage>)
    ensures
        is_chat(r@, raw_transcript@, strength, opt_str_view(language)),
{
    let mut messages: Vec<ChatMessage> = Vec::new();
    messages.push(
        ChatMessage {
            role: String::from_str("system"),
            content: String::from_str(system_prompt(strength)),
        },
    );
    messages.push(
        ChatMessage { role: String::from_str("user"), content: user_prompt(raw_transcript, language) },
    );
    messages
}

/// The cloud provider's settings, as text.
pub struct CloudConfigView {
    pub base_url: Seq<char>,
    pub api_key: Seq<char>,
    pub model: Seq<char>,
}

/// The cleanup pass against a user-supplied, OpenAI-compatible endpoint
/// (`POST {base_url}/chat/completions`) with a user-supplied key: hosted
/// services and local runners that speak the same shape alike.
pub struct CloudProvider {
    base_url: String,
    api_key: String,
    model: String,
}

impl View for CloudProvider {
    type V = CloudConfigView;

    closed spec fn view(&self) -> CloudConfigView {
        CloudConfigView { base_url: self.base_url@, api_key: self.api_key@, model: self.model@ }
    }
}

/// What `CloudProvider::new` gives for the three settings.
pub open spec fn cloud_provider_outcome(base_url: Seq<char>, api_key: Seq<char>) -> Option<
    Seq<char>,
> {
    if trim(base_url).len() == 0 {
        Some("cloud cleanup base URL is empty"@)
    } else if trim(api_key).len() == 0 {
        Some("cloud cleanup API key is empty"@)
    } else {
        None
    }
}

/// The `/chat/completions` address under a base URL with its trailing slashes
/// dropped.
pub open spec fn endpoint_url_text(base_url: Seq<char>) -> Seq<char> {
    trim_end_char(base_url, '/') + "/chat/completions"@
}

/// The endpoint is the base URL followed by "/chat/completions" when the base
/// does not end with a slash, and trailing slashes on the base make no
/// difference: "https://h/v1", "https://h/v1/" and "https://h/v1//" all give
/// "https://h/v1/chat/completions".
pub proof fn lemma_endpoint_url_appends_path(base: Seq<char>)
    ensures
        (base.len() == 0 || base.last() != '/') ==> endpoint_url_text(base) == base
            + "/chat/completions"@,
        endpoint_url_text(base.push('/')) == endpoint_url_text(base),
{
    assert(base.push('/').drop_last() =~= base);
}

impl CloudProvider {
    #[verifier::type_invariant]
    closed spec fn wf(self) -> bool {
        trim(self.base_url@).len() > 0 && trim(self.api_key@).len() > 0
    }

    /// Checks and keeps the settings. An empty or blank base URL or key is an
    /// `InvalidConfig` error; any address is accepted otherwise.
    pub fn new(base_url: String, api_key: String, model: String) -> (r: Result<Self, CleanupError>)
        ensures
            match cloud_provider_outcome(base_url@, api_key@) {
                Some(msg) => r matches Err(CleanupError::InvalidConfig(m)) && m@ == msg,
                None => r matches Ok(p) && p@ == (CloudConfigView {
                    base_url: base_url@,
                    api_key: api_key@,
                    model: model@,
                }),
            },
    {
        let b = trim_str(base_url.as_str());
        if b.as_str().unicode_len() == 0 {
            return Err(CleanupError::InvalidConfig(String::from_str("cloud cleanup base URL is empty")));
        }
        let k = trim_str(api_key.as_str());
        if k.as_str().unicode_len() == 0 {
            return Err(CleanupError::InvalidConfig(String::from_str("cloud cleanup API key is empty")));
        }
        Ok(CloudProvider { base_url, api_key, model })
    }

    /// The request body: the strength's system prompt, then the user message
    /// with the transcript and, when given, the language.
    pub fn build_request(
        &self,
        raw_transcript: &str,
        strength: CleanupStrength,
        language: Option<&str>,
    ) -> (r: ChatRequest)
        ensures
            r.model@ == self@.model,
            is_chat(r.messages@, raw_transcript@, strength, opt_str_view(language)),
    {
        ChatRequest {
            model: self.model.clone(),
            messages: chat_messages(raw_transcript, strength, language),
        }
    }

    /// The `/chat/completions` address, with trailing slashes of the base URL
    /// dropped.
    pub fn endpoint_url(&self) -> (r: String)
        ensures
            r@ == endpoint_url_text(self@.base_url),
    {
        let base = trim_end_matches_char(self.base_url.as_str(), '/');
        base.concat("/chat/completions")
    }

    /// The value of the `Authorization` header: `Bearer` and the key.
    pub fn authorization(&self) -> (r: String)
        ensures
            r@ == "Bearer "@ + self@.api_key,
    {
        let s = String::from_str("Bearer ");
        s.concat(self.api_key.as_str())
    }
}

/// The cleaned transcript in an answer whose choices' message contents are
/// `choices`: the first, trimmed; an answer without choices is an inference
/// failure.
pub fn cleaned_from_choices(choices: &Vec<String>) -> (r: Result<String, CleanupError>)
    ensures
        choices@.len() > 0 ==> (r matches Ok(s) && s@ == trim(choices@[0]@)),
        choices@.len() == 0 ==> (r matches Err(CleanupError::InferenceFailed(m)) && m@
            == "response had no choices"@),
{
    if choices.len() == 0 {
        return Err(CleanupError::InferenceFailed(String::from_str("response had no choices")));
    }
    Ok(trim_str(choices[0].as_str()))
}

/// The error for an answer that is not shaped like an OpenAI-compatible one.
pub fn unexpected_response_shape(detail: &str) -> (e: CleanupError)
    ensures
        e matches CleanupError::InferenceFailed(m) && m@
            == "response did not match the expected OpenAI-compatible shape: "@ + detail@,
{
    let s = String::from_str("response did not match the expected OpenAI-compatible shape: ");
    CleanupError::InferenceFailed(s.concat(detail))
}

/// The context size for a prompt of `prompt_tokens` tokens: room for the
/// prompt and the generated tokens, or 2048 where that sum truncates to zero.
pub open spec fn context_size_spec(prompt_tokens: usize) -> u32 {
    if ((prompt_tokens + MAX_NEW_TOKENS) as u32) == 0 {
        2048
    } else {
        (prompt_tokens + MAX_NEW_TOKENS) as u32
    }
}

/// The context size requested from the local model for a prompt of
/// `prompt_tokens` tokens.
pub fn context_size(prompt_tokens: usize) -> (r: u32)
    requires
        prompt_tokens + MAX_NEW_TOKENS <= usize::MAX,
    ensures
        r == context_size_spec(prompt_tokens),
        r > 0,
{
    let total: usize = prompt_tokens + MAX_NEW_TOKENS;
    let n: u32 = total as u32;
    if n == 0 {
        2048
    } else {
        n
    }
}

/// The batch capacity for a prompt of `prompt_tokens` tokens: enough for the
/// whole prompt and for the generation budget.
pub fn batch_capacity(prompt_tokens: usize) -> (r: usize)
    ensures
        r == if prompt_tokens > MAX_NEW_TOKENS { prompt_tokens } else { MAX_NEW_TOKENS },
{
    if prompt_tokens > MAX_NEW_TOKENS {
        prompt_tokens
    } else {
        MAX_NEW_TOKENS
    }
}

/// The state of a local generation: what has been decoded so far, how many
/// tokens were generated, the position of the next token, and whether the
/// model has signalled the end of generation.
pub struct LocalGeneration {
    output: String,
    generated: usize,
    next_pos: i32,
    stopped: bool,
}

pub struct LocalGenerationView {
    pub output: Seq<char>,
    pub generated: nat,
    pub next_pos: int,
    pub stopped: bool,
}

impl View for LocalGeneration {
    type V = LocalGenerationView;

    closed spec fn view(&self) -> LocalGenerationView {
        LocalGenerationView {
            output: self.output@,
            generated: self.generated as nat,
            next_pos: self.next_pos as int,
            stopped: self.stopped,
        }
    }
}

impl LocalGeneration {
    #[verifier::type_invariant]
    closed spec fn wf(self) -> bool {
        &&& self.generated <= MAX_NEW_TOKENS
        &&& self.next_pos as int + (MAX_NEW_TOKENS - self.generated) <= i32::MAX
    }

    /// A generation after a prompt of `prompt_tokens` tokens: nothing decoded
    /// yet, the first new token at the position right after the prompt.
    pub fn new(prompt_tokens: usize) -> (g: Self)
        requires
            prompt_tokens + MAX_NEW_TOKENS <= i32::MAX,
        ensures
            g@ == (LocalGenerationView {
                output: seq![],
                generated: 0,
                next_pos: prompt_tokens as int,
                stopped: false,
            }),
    {
        LocalGeneration {
            output: String::new(),
            generated: 0,
            next_pos: prompt_tokens as i32,
            stopped: false,
        }
    }

    /// Whether another token is to be sampled: generation has not ended and
    /// the token budget is not spent.
    pub fn wants_token(&self) -> (r: bool)
        ensures
            r == (!self@.stopped && self@.generated < MAX_NEW_TOKENS),
    {
        !self.stopped && self.generated < MAX_NEW_TOKENS
    }

    /// The model sampled its end-of-generation token: generation stops.
    pub fn end_of_generation(&mut self)
        ensures
            final(self)@ == (LocalGenerationView { stopped: true, ..old(self)@ }),
    {
        proof {
            use_type_invariant(&*self);
        }
        self.stopped = true;
    }

    /// Takes the decoded text of a sampled token and returns the position at
    /// which that token is fed back to the model.
    pub fn push_piece(&mut self, piece: &str) -> (pos: i32)
        requires
            old(self)@.generated < MAX_NEW_TOKENS,
        ensures
            pos == old(self)@.next_pos,
            final(self)@ == (LocalGenerationView {
                output: old(self)@.output + piece@,
                generated: old(self)@.generated + 1,
                next_pos: old(self)@.next_pos + 1,
                stopped: old(self)@.stopped,
            }),
    {
        proof {
            use_type_invariant(&*self);
        }
        let pos = self.next_pos;
        let mut out = String::new();
        std::mem::swap(&mut out, &mut self.output);
        out.append(piece);
        self.output = out;
        self.generated = self.generated + 1;
        self.next_pos = self.next_pos + 1;
        pos
    }

    /// The cleaned transcript: everything decoded, trimmed.
    pub fn cleaned(&self) -> (r: String)
        ensures
            r@ == trim(self@.output),
    {
        trim_str(self.output.as_str())
    }
}

} // verus!
