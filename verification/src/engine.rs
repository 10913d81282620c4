//! The engine's decisions for one dictation: from the hotkey press, through
//! capture, speech-to-text, the blocklist and the cleanup pass, to the
//! transcript ready for injection. The audio device, the models and the
//! network are driven at the edge: each step here says what to do next, and
//! the outcome of that outside work is handed back to the following step.
use vstd::prelude::*;
use crate::audio::AudioError;
use crate::blocklist::{blocklist_words, filter_text, Blocklist};
use crate::cleanup::{
    endpoint_url_text, is_chat, user_prompt_text, opt_str_view, system_prompt, system_prompt_text,
    cloud_provider_outcome, ChatRequest, CleanupError, CleanupStrength, CloudConfigView,
    CloudProvider,
};
use crate::session::{next_state, Session, SessionEvent, SessionState};
use crate::text::trim;
use crate::transcribe::{
    is_too_short, duration_ms_spec, language_view, opt_string_view, LanguageSetting,
    TranscribeConfig, TranscribeError, MIN_SPEECH_MS,
};

verus! {

/// The status codes reported across the foreign-function boundary.
#[derive(Debug, Clone, Copy, PartialEq, Eq, Structural)]
pub enum StatusCode {
    /// The step succeeded.
    Success,
    IllegalState,
    NoInputDevice,
    AudioOther,
    NotRecording,
    WavWriteFailed,
    DeviceDisconnected,
    InvalidPath,
    /// The recording was silence only, or too brief to transcribe.
    NoSpeech,
    /// The speech-to-text model failed to load or to run.
    TranscriptionFailed,
    /// The cleanup model failed to load, or inference failed.
    CleanupFailed,
    /// The cloud cleanup request failed on the network.
    CleanupNetworkFailed,
    /// The selected cleanup provider lacks required settings.
    CleanupInvalidConfig,
}

pub open spec fn status_number(s: StatusCode) -> int {
    match s {
        StatusCode::Success => 0,
        StatusCode::IllegalState => 1,
        StatusCode::NoInputDevice => 2,
        StatusCode::AudioOther => 3,
        StatusCode::NotRecording => 4,
        StatusCode::WavWriteFailed => 5,
        StatusCode::DeviceDisconnected => 6,
        StatusCode::InvalidPath => 7,
        StatusCode::NoSpeech => 8,
        StatusCode::TranscriptionFailed => 9,
        StatusCode::CleanupFailed => 10,
        StatusCode::CleanupNetworkFailed => 11,
        StatusCode::CleanupInvalidConfig => 12,
    }
}

impl StatusCode {
    /// The number that stands for the status across the boundary.
    pub fn code(self) -> (r: i32)
        ensures
            r == status_number(self),
    {
        match self {
            StatusCode::Success => 0,
            StatusCode::IllegalState => 1,
            StatusCode::NoInputDevice => 2,
            StatusCode::AudioOther => 3,
            StatusCode::NotRecording => 4,
            StatusCode::WavWriteFailed => 5,
            StatusCode::DeviceDisconnected => 6,
            StatusCode::InvalidPath => 7,
            StatusCode::NoSpeech => 8,
            StatusCode::TranscriptionFailed => 9,
            StatusCode::CleanupFailed => 10,
            StatusCode::CleanupNetworkFailed => 11,
            StatusCode::CleanupInvalidConfig => 12,
        }
    }
}

pub open spec fn state_number(state: SessionState) -> int {
    match state {
        SessionState::Idle => 0,
        SessionState::Recording => 1,
        SessionState::Processing => 2,
        SessionState::Done => 3,
        SessionState::Discarded => 4,
        SessionState::Error => 5,
        SessionState::NoSpeech => 6,
    }
}

/// The number that stands for a session state across the boundary.
pub fn state_code(state: SessionState) -> (r: i32)
    ensures
        r == state_number(state),
{
    match state {
        SessionState::Idle => 0,
        SessionState::Recording => 1,
        SessionState::Processing => 2,
        SessionState::Done => 3,
        SessionState::Discarded => 4,
        SessionState::Error => 5,
        SessionState::NoSpeech => 6,
    }
}

/// Which cleanup pass runs. `Local` is an in-process model; `Cloud` is an
/// OpenAI-compatible endpoint (hosted, or a local runner's address); `Apple`
/// is done by the host application, which hands the cleaned transcript back
/// with `Engine::set_cleaned_transcript`; `Passthrough` runs no cleanup.
#[derive(Debug, Clone, Copy, PartialEq, Eq, Structural)]
pub enum CleanupProviderKind {
    Passthrough,
    Local,
    Apple,
    Cloud,
}

/// The provider a boundary code selects: 0 none, 1 local, 2 Apple, 3 cloud.
pub fn cleanup_provider_from_code(kind: i32) -> (r: Option<CleanupProviderKind>)
    ensures
        r == match kind {
            0 => Some(CleanupProviderKind::Passthrough),
            1 => Some(CleanupProviderKind::Local),
            2 => Some(CleanupProviderKind::Apple),
            3 => Some(CleanupProviderKind::Cloud),
            _ => None::<CleanupProviderKind>,
        },
{
    match kind {
        0 => Some(CleanupProviderKind::Passthrough),
        1 => Some(CleanupProviderKind::Local),
        2 => Some(CleanupProviderKind::Apple),
        3 => Some(CleanupProviderKind::Cloud),
        _ => None,
    }
}

/// The strength a boundary code selects: 0 verbatim, 1 light edit, 2 formal.
pub fn cleanup_strength_from_code(strength: i32) -> (r: Option<CleanupStrength>)
    ensures
        r == match strength {
            0 => Some(CleanupStrength::VerbatimClean),
            1 => Some(CleanupStrength::LightEdit),
            2 => Some(CleanupStrength::FormalRewrite),
            _ => None::<CleanupStrength>,
        },
{
    match strength {
        0 => Some(CleanupStrength::VerbatimClean),
        1 => Some(CleanupStrength::LightEdit),
        2 => Some(CleanupStrength::FormalRewrite),
        _ => None,
    }
}

/// The shared cleanup system prompt for a boundary strength code, so that a
/// host-side provider reuses the very same wording; `None` for an invalid code.
pub fn voicedrop_cleanup_prompt_for_strength(strength: i32) -> (r: Option<&'static str>)
    ensures
        match cleanup_strength_from_code_spec(strength) {
            Some(s) => r matches Some(p) && p@ == system_prompt_text(s),
            None => r is None,
        },
{
    match cleanup_strength_from_code(strength) {
        Some(s) => Some(system_prompt(s)),
        None => None,
    }
}

pub open spec fn cleanup_strength_from_code_spec(strength: i32) -> Option<CleanupStrength> {
    match strength {
        0 => Some(CleanupStrength::VerbatimClean),
        1 => Some(CleanupStrength::LightEdit),
        2 => Some(CleanupStrength::FormalRewrite),
        _ => None,
    }
}

/// The fields of `s` separated by commas, as `str::split(',')` gives them.
pub open spec fn comma_fields(s: Seq<char>) -> Seq<Seq<char>>
    decreases s.len(),
{
    if s.len() == 0 {
        seq![seq![]]
    } else {
        let f = comma_fields(s.drop_last());
        if s.last() == ',' {
            f.push(seq![])
        } else {
            f.update(f.len() - 1, f.last().push(s.last()))
        }
    }
}

/// Each field trimmed, blank ones dropped.
pub open spec fn nonblank_trimmed(fields: Seq<Seq<char>>) -> Seq<Seq<char>>
    decreases fields.len(),
{
    if fields.len() == 0 {
        seq![]
    } else {
        let prev = nonblank_trimmed(fields.drop_last());
        let t = trim(fields.last());
        if t.len() > 0 {
            prev.push(t)
        } else {
            prev
        }
    }
}

proof fn lemma_comma_fields_nonempty(s: Seq<char>)
    ensures
        comma_fields(s).len() > 0,
    decreases s.len(),
{
    if s.len() > 0 {
        lemma_comma_fields_nonempty(s.drop_last());
    }
}

/// A comma-separated word list as the host hands it over: the fields,
/// trimmed, with blank ones dropped.
pub fn parse_word_list(words: &str) -> (r: Vec<String>)
    ensures
        r@.map_values(|w: String| w@) == nonblank_trimmed(comma_fields(words@)),
{
    let chars = crate::text::chars_of(words);
    let n = chars.len();
    let mut out: Vec<String> = Vec::new();
    let mut cur: Vec<char> = Vec::new();
    let mut i: usize = 0;
    while i < n
        invariant
            n == chars@.len(),
            chars@ == words@,
            i <= n,
            comma_fields(words@.take(i as int)).len() > 0,
            comma_fields(words@.take(i as int)).last() == cur@,
            out@.map_values(|w: String| w@) == nonblank_trimmed(
                comma_fields(words@.take(i as int)).drop_last(),
            ),
        decreases n - i,
    {
        let c = chars[i];
        let ghost s1 = words@.take(i as int + 1);
        let ghost f0 = comma_fields(words@.take(i as int));
        proof {
            assert(s1.drop_last() =~= words@.take(i as int));
            assert(s1.last() == c);
        }
        if c == ',' {
            let ghost before = out@.map_values(|w: String| w@);
            let t = crate::text::trim_chars(&cur);
            if t.len() > 0 {
                let s = crate::text::string_from_chars(&t);
                out.push(s);
            }
            cur = Vec::new();
            proof {
                let f1 = comma_fields(s1);
                assert(f1 == f0.push(seq![]));
                assert(f1.drop_last() =~= f0);
                assert(f0.drop_last().push(f0.last()) =~= f0);
                if t@.len() > 0 {
                    assert(out@.map_values(|w: String| w@) =~= before.push(t@));
                } else {
                    assert(out@.map_values(|w: String| w@) =~= before);
                }
            }
        } else {
            cur.push(c);
            proof {
                let f1 = comma_fields(s1);
                assert(f1.drop_last() =~= f0.drop_last());
            }
        }
        i = i + 1;
    }
    let t = crate::text::trim_chars(&cur);
    let ghost before = out@.map_values(|w: String| w@);
    if t.len() > 0 {
        let s = crate::text::string_from_chars(&t);
        out.push(s);
    }
    proof {
        assert(words@.take(n as int) =~= words@);
        let f = comma_fields(words@);
        assert(f.drop_last().push(f.last()) =~= f);
        if t@.len() > 0 {
            assert(out@.map_values(|w: String| w@) =~= before.push(t@));
        } else {
            assert(out@.map_values(|w: String| w@) =~= before);
        }
    }
    out
}

/// The state after applying `e` the way the engine does, ignoring a rejection.
pub open spec fn after(s: SessionState, e: SessionEvent) -> SessionState {
    match next_state(s, e) {
        Some(n) => n,
        None => s,
    }
}

/// The status code a failed cleanup pass is reported with.
pub open spec fn cleanup_error_status(e: CleanupError) -> StatusCode {
    match e {
        CleanupError::NetworkFailed(_) => StatusCode::CleanupNetworkFailed,
        CleanupError::InvalidConfig(_) => StatusCode::CleanupInvalidConfig,
        _ => StatusCode::CleanupFailed,
    }
}

/// Everything the engine's decisions depend on, as plain values.
pub struct EngineView {
    pub state: SessionState,
    /// An audio capture is running.
    pub capturing: bool,
    /// The last stopped recording's samples are kept.
    pub has_samples: bool,
    /// The raw transcript, after the blocklist.
    pub last_raw_transcript: Option<Seq<char>>,
    /// The transcript ready for injection.
    pub last_transcript: Option<Seq<char>>,
    pub model_path: Seq<char>,
    pub transcriber_loaded: bool,
    /// The fixed transcription language; `None` for auto-detection.
    pub language: Option<Seq<char>>,
    pub fallback_language: Option<Seq<char>>,
    pub vocabulary: Seq<Seq<char>>,
    pub blocklist_words: Seq<Seq<char>>,
    pub cleanup_provider: CleanupProviderKind,
    pub cleanup_strength: CleanupStrength,
    pub cleanup_local_model_path: Seq<char>,
    pub local_cleanup_loaded: bool,
    pub cloud_base_url: Option<Seq<char>>,
    pub cloud_api_key: Option<Seq<char>>,
    pub cloud_model: Option<Seq<char>>,
    /// The cloud provider built from the three settings above, if built.
    pub cloud_cleanup: Option<CloudConfigView>,
}

/// What building the cloud provider from the settings gives: its settings,
/// or the message of the `InvalidConfig` error.
pub open spec fn cloud_build_outcome(v: EngineView) -> Result<CloudConfigView, Seq<char>> {
    match (v.cloud_base_url, v.cloud_api_key) {
        (None, _) => Err("no cloud cleanup base URL configured"@),
        (Some(_), None) => Err("no cloud cleanup API key configured"@),
        (Some(base), Some(key)) => match cloud_provider_outcome(base, key) {
            Some(msg) => Err(msg),
            None => Ok(
                CloudConfigView {
                    base_url: base,
                    api_key: key,
                    model: match v.cloud_model {
                        Some(m) => m,
                        None => Seq::<char>::empty(),
                    },
                },
            ),
        },
    }
}

/// `req` is the request the cloud provider `p` sends for this transcript.
pub open spec fn is_cloud_request(
    req: ChatRequest,
    p: CloudConfigView,
    raw: Seq<char>,
    strength: CleanupStrength,
    language: Option<Seq<char>>,
) -> bool {
    &&& req.model@ == p.model
    &&& is_chat(req.messages@, raw, strength, language)
}

/// What to do after speech-to-text: nothing more (the status is final), run
/// the local model (loading it first if asked), or send the cloud request.
pub enum CleanupStep {
    Done(StatusCode),
    RunLocal {
        load_model: bool,
        model_path: String,
        raw_transcript: String,
        strength: CleanupStrength,
        language: Option<String>,
    },
    SendCloud { url: String, authorization: String, request: ChatRequest },
}

/// `step` is what the cleanup pass of `raw` asks for with the engine in `v`,
/// and `w` is the engine after it.
pub open spec fn cleanup_pass(v: EngineView, raw: Seq<char>, w: EngineView, step: CleanupStep) -> bool {
    match v.cleanup_provider {
        CleanupProviderKind::Passthrough => {
            &&& w == (EngineView {
                last_transcript: Some(raw),
                state: after(v.state, SessionEvent::ProcessingSucceeded),
                ..v
            })
            &&& step == CleanupStep::Done(StatusCode::Success)
        },
        CleanupProviderKind::Apple => {
            &&& w == (EngineView {
                last_transcript: None,
                state: after(v.state, SessionEvent::ProcessingSucceeded),
                ..v
            })
            &&& step == CleanupStep::Done(StatusCode::Success)
        },
        CleanupProviderKind::Local => {
            &&& w == v
            &&& step matches CleanupStep::RunLocal {
                load_model,
                model_path,
                raw_transcript,
                strength,
                language,
            }
            &&& load_model == !v.local_cleanup_loaded
            &&& model_path@ == v.cleanup_local_model_path
            &&& raw_transcript@ == raw
            &&& strength == v.cleanup_strength
            &&& opt_string_view(language) == v.language
        },
        CleanupProviderKind::Cloud => {
            let built = match v.cloud_cleanup {
                Some(p) => Ok(p),
                None => cloud_build_outcome(v),
            };
            match built {
                Err(msg) => {
                    &&& w == (EngineView {
                        last_transcript: None,
                        state: after(v.state, SessionEvent::ProcessingFailed),
                        ..v
                    })
                    &&& step == CleanupStep::Done(StatusCode::CleanupInvalidConfig)
                },
                Ok(p) => {
                    &&& w == (EngineView { cloud_cleanup: Some(p), ..v })
                    &&& step matches CleanupStep::SendCloud { url, authorization, request }
                    &&& url@ == endpoint_url_text(p.base_url)
                    &&& authorization@ == "Bearer "@ + p.api_key
                    &&& is_cloud_request(request, p, raw, v.cleanup_strength, v.language)
                },
            }
        },
    }
}

/// The engine's state: the session and the settings and outcomes of the
/// current and last dictation. The audio capture, the samples and the loaded
/// models themselves are held by the caller; the engine records whether they
/// exist.
pub struct Engine {
    session: Session,
    capturing: bool,
    has_samples: bool,
    last_raw_transcript: Option<String>,
    last_transcript: Option<String>,
    model_path: String,
    transcriber_loaded: bool,
    transcribe_config: TranscribeConfig,
    blocklist_words: Vec<String>,
    cleanup_provider: CleanupProviderKind,
    cleanup_strength: CleanupStrength,
    cleanup_local_model_path: String,
    local_cleanup_loaded: bool,
    cloud_base_url: Option<String>,
    cloud_api_key: Option<String>,
    cloud_model: Option<String>,
    cloud_cleanup: Option<CloudProvider>,
}

impl View for Engine {
    type V = EngineView;

    closed spec fn view(&self) -> EngineView {
        EngineView {
            state: self.session@,
            capturing: self.capturing,
            has_samples: self.has_samples,
            last_raw_transcript: opt_string_view(self.last_raw_transcript),
            last_transcript: opt_string_view(self.last_transcript),
            model_path: self.model_path@,
            transcriber_loaded: self.transcriber_loaded,
            language: language_view(self.transcribe_config.language),
            fallback_language: opt_string_view(self.transcribe_config.fallback_language),
            vocabulary: self.transcribe_config.vocabulary@.map_values(|w: String| w@),
            blocklist_words: self.blocklist_words@.map_values(|w: String| w@),
            cleanup_provider: self.cleanup_provider,
            cleanup_strength: self.cleanup_strength,
            cleanup_local_model_path: self.cleanup_local_model_path@,
            local_cleanup_loaded: self.local_cleanup_loaded,
            cloud_base_url: opt_string_view(self.cloud_base_url),
            cloud_api_key: opt_string_view(self.cloud_api_key),
            cloud_model: opt_string_view(self.cloud_model),
            cloud_cleanup: match self.cloud_cleanup {
                Some(p) => Some(p@),
                None => None,
            },
        }
    }
}

fn clone_opt(o: &Option<String>) -> (r: Option<String>)
    ensures
        opt_string_view(r) == opt_string_view(*o),
{
    match o {
        Some(s) => Some(s.clone()),
        None => None,
    }
}

impl Engine {
    /// A fresh engine: idle, nothing recorded, no models loaded, automatic
    /// language detection, no custom words, no cleanup pass at the least
    /// destructive strength, with the given model file paths.
    pub fn new(model_path: String, cleanup_local_model_path: String) -> (e: Engine)
        ensures
            e@ == (EngineView {
                state: SessionState::Idle,
                capturing: false,
                has_samples: false,
                last_raw_transcript: None,
                last_transcript: None,
                model_path: model_path@,
                transcriber_loaded: false,
                language: None,
                fallback_language: None,
                vocabulary: seq![],
                blocklist_words: seq![],
                cleanup_provider: CleanupProviderKind::Passthrough,
                cleanup_strength: CleanupStrength::VerbatimClean,
                cleanup_local_model_path: cleanup_local_model_path@,
                local_cleanup_loaded: false,
                cloud_base_url: None,
                cloud_api_key: None,
                cloud_model: None,
                cloud_cleanup: None,
            }),
    {
        let e = Engine {
            session: Session::new(),
            capturing: false,
            has_samples: false,
            last_raw_transcript: None,
            last_transcript: None,
            model_path,
            transcriber_loaded: false,
            transcribe_config: TranscribeConfig::default(),
            blocklist_words: Vec::new(),
            cleanup_provider: CleanupProviderKind::Passthrough,
            cleanup_strength: CleanupStrength::VerbatimClean,
            cleanup_local_model_path,
            local_cleanup_loaded: false,
            cloud_base_url: None,
            cloud_api_key: None,
            cloud_model: None,
            cloud_cleanup: None,
        };
        assert(e@.vocabulary =~= seq![]);
        assert(e@.blocklist_words =~= seq![]);
        e
    }

    /// The session state.
    pub fn state(&self) -> (s: SessionState)
        ensures
            s == self@.state,
    {
        self.session.state()
    }

    /// Starts a dictation on the hotkey press. `Success` means the session is
    /// now recording and the caller must open the input device and report with
    /// `finish_start_recording`; outside `Idle` the press is an illegal state.
    pub fn start_recording(&mut self) -> (r: StatusCode)
        ensures
            match next_state(old(self)@.state, SessionEvent::HotkeyDown) {
                Some(n) => r == StatusCode::Success && final(self)@ == (EngineView {
                    state: n,
                    ..old(self)@
                }),
                None => r == StatusCode::IllegalState && final(self)@ == old(self)@,
            },
    {
        match self.session.apply(SessionEvent::HotkeyDown) {
            Ok(_) => StatusCode::Success,
            Err(_) => StatusCode::IllegalState,
        }
    }

    /// Takes the outcome of opening the input device. On failure the session
    /// is rolled back (recording never started) and the error reported.
    pub fn finish_start_recording(&mut self, outcome: Result<(), AudioError>) -> (r: StatusCode)
        ensures
            match outcome {
                Ok(()) => r == StatusCode::Success && final(self)@ == (EngineView {
                    capturing: true,
                    ..old(self)@
                }),
                Err(e) => final(self)@ == (EngineView {
                    state: after(
                        after(old(self)@.state, SessionEvent::RecordingFailed),
                        SessionEvent::Reset,
                    ),
                    ..old(self)@
                }) && r == (match e {
                    AudioError::NoInputDevice => StatusCode::NoInputDevice,
                    _ => StatusCode::AudioOther,
                }),
            },
    {
        match outcome {
            Ok(()) => {
                self.capturing = true;
                StatusCode::Success
            },
            Err(err) => {
                let _ = self.session.apply(SessionEvent::RecordingFailed);
                let _ = self.session.apply(SessionEvent::Reset);
                match err {
                    AudioError::NoInputDevice => StatusCode::NoInputDevice,
                    _ => StatusCode::AudioOther,
                }
            },
        }
    }

    /// Ends the recording on the hotkey release. Without a running capture
    /// this is `NotRecording`; otherwise the capture is handed over to be
    /// stopped (`capturing` becomes false) and the session moves to
    /// processing, or reports an illegal state. On `Success` the caller stops
    /// the capture and reports with `finish_stop_recording`.
    pub fn stop_recording(&mut self) -> (r: StatusCode)
        ensures
            !old(self)@.capturing ==> r == StatusCode::NotRecording && final(self)@ == old(self)@,
            old(self)@.capturing ==> match next_state(old(self)@.state, SessionEvent::HotkeyUp) {
                Some(n) => r == StatusCode::Success && final(self)@ == (EngineView {
                    state: n,
                    capturing: false,
                    ..old(self)@
                }),
                None => r == StatusCode::IllegalState && final(self)@ == (EngineView {
                    capturing: false,
                    ..old(self)@
                }),
            },
    {
        if !self.capturing {
            return StatusCode::NotRecording;
        }
        self.capturing = false;
        match self.session.apply(SessionEvent::HotkeyUp) {
            Ok(_) => StatusCode::Success,
            Err(_) => StatusCode::IllegalState,
        }
    }

    /// Takes the outcome of stopping the capture: the number of mono 16 kHz
    /// samples, or the capture error. A lost device and other capture errors
    /// fail the session; a recording too short to transcribe ends it as
    /// no-speech; otherwise `Success` asks the caller to transcribe.
    pub fn finish_stop_recording(&mut self, outcome: Result<usize, AudioError>) -> (r: StatusCode)
        requires
            outcome matches Ok(n) ==> n * 1000 <= u64::MAX,
        ensures
            match outcome {
                Err(AudioError::DeviceDisconnected) => r == StatusCode::DeviceDisconnected
                    && final(self)@ == (EngineView {
                    state: after(old(self)@.state, SessionEvent::ProcessingFailed),
                    ..old(self)@
                }),
                Err(_) => r == StatusCode::AudioOther && final(self)@ == (EngineView {
                    state: after(old(self)@.state, SessionEvent::ProcessingFailed),
                    ..old(self)@
                }),
                Ok(n) => if duration_ms_spec(n as int) < MIN_SPEECH_MS {
                    r == StatusCode::NoSpeech && final(self)@ == (EngineView {
                        has_samples: true,
                        state: after(old(self)@.state, SessionEvent::NoSpeechDetected),
                        ..old(self)@
                    })
                } else {
                    r == StatusCode::Success && final(self)@ == (EngineView {
                        has_samples: true,
                        ..old(self)@
                    })
                },
            },
    {
        match outcome {
            Err(AudioError::DeviceDisconnected) => {
                let _ = self.session.apply(SessionEvent::ProcessingFailed);
                StatusCode::DeviceDisconnected
            },
            Err(_) => {
                let _ = self.session.apply(SessionEvent::ProcessingFailed);
                StatusCode::AudioOther
            },
            Ok(n) => {
                self.has_samples = true;
                if is_too_short(n) {
                    let _ = self.session.apply(SessionEvent::NoSpeechDetected);
                    StatusCode::NoSpeech
                } else {
                    StatusCode::Success
                }
            },
        }
    }

    /// Whether the speech-to-text model must be loaded before transcribing.
    pub fn needs_transcriber(&self) -> (r: bool)
        ensures
            r == !self@.transcriber_loaded,
    {
        !self.transcriber_loaded
    }

    /// Takes the outcome of loading the speech-to-text model; a failed load
    /// fails the session.
    pub fn finish_transcriber_load(&mut self, outcome: Result<(), TranscribeError>) -> (r: StatusCode)
        ensures
            match outcome {
                Ok(()) => r == StatusCode::Success && final(self)@ == (EngineView {
                    transcriber_loaded: true,
                    ..old(self)@
                }),
                Err(_) => r == StatusCode::TranscriptionFailed && final(self)@ == (EngineView {
                    state: after(old(self)@.state, SessionEvent::ProcessingFailed),
                    ..old(self)@
                }),
            },
    {
        match outcome {
            Ok(()) => {
                self.transcriber_loaded = true;
                StatusCode::Success
            },
            Err(_) => {
                let _ = self.session.apply(SessionEvent::ProcessingFailed);
                StatusCode::TranscriptionFailed
            },
        }
    }

    /// Takes the outcome of speech-to-text. A failure fails the session and
    /// an empty transcript ends it as no-speech. Otherwise the blocklist runs
    /// on the transcript, whatever the provider, the result is kept as the raw
    /// transcript, and the cleanup pass of the selected provider starts.
    pub fn finish_transcription(&mut self, outcome: Result<String, TranscribeError>) -> (r: CleanupStep)
        ensures
            match outcome {
                Err(_) => r == CleanupStep::Done(StatusCode::TranscriptionFailed) && final(self)@
                    == (EngineView {
                    state: after(old(self)@.state, SessionEvent::ProcessingFailed),
                    ..old(self)@
                }),
                Ok(text) => if text@.len() == 0 {
                    r == CleanupStep::Done(StatusCode::NoSpeech) && final(self)@ == (EngineView {
                        state: after(old(self)@.state, SessionEvent::NoSpeechDetected),
                        ..old(self)@
                    })
                } else {
                    let raw = filter_text(blocklist_words(old(self)@.blocklist_words), text@);
                    cleanup_pass(
                        EngineView { last_raw_transcript: Some(raw), ..old(self)@ },
                        raw,
                        final(self)@,
                        r,
                    )
                },
            },
    {
        match outcome {
            Err(_) => {
                let _ = self.session.apply(SessionEvent::ProcessingFailed);
                CleanupStep::Done(StatusCode::TranscriptionFailed)
            },
            Ok(text) => {
                if text.as_str().unicode_len() == 0 {
                    let _ = self.session.apply(SessionEvent::NoSpeechDetected);
                    return CleanupStep::Done(StatusCode::NoSpeech);
                }
                let blocklist = Blocklist::new(self.blocklist_words.as_slice());
                let filtered = blocklist.filter(text.as_str());
                self.last_raw_transcript = Some(filtered.clone());
                self.run_cleanup_pass(filtered)
            },
        }
    }

    /// Runs the selected provider's cleanup pass on `raw_transcript`, as far
    /// as the engine can: the pass-through and host-side providers finish
    /// here; the local and cloud providers are handed to the caller.
    fn run_cleanup_pass(&mut self, raw_transcript: String) -> (r: CleanupStep)
        ensures
            cleanup_pass(old(self)@, raw_transcript@, final(self)@, r),
    {
        let language = match &self.transcribe_config.language {
            LanguageSetting::Fixed(code) => Some(code.clone()),
            LanguageSetting::Auto => None,
        };
        match self.cleanup_provider {
            CleanupProviderKind::Passthrough => {
                self.last_transcript = Some(raw_transcript);
                let _ = self.session.apply(SessionEvent::ProcessingSucceeded);
                CleanupStep::Done(StatusCode::Success)
            },
            CleanupProviderKind::Apple => {
                self.last_transcript = None;
                let _ = self.session.apply(SessionEvent::ProcessingSucceeded);
                CleanupStep::Done(StatusCode::Success)
            },
            CleanupProviderKind::Local => {
                CleanupStep::RunLocal {
                    load_model: !self.local_cleanup_loaded,
                    model_path: self.cleanup_local_model_path.clone(),
                    raw_transcript,
                    strength: self.cleanup_strength,
                    language,
                }
            },
            CleanupProviderKind::Cloud => {
                if self.cloud_cleanup.is_none() {
                    match self.build_cloud_provider() {
                        Ok(provider) => {
                            self.cloud_cleanup = Some(provider);
                        },
                        Err(err) => {
                            return CleanupStep::Done(self.fail_cleanup(err));
                        },
                    }
                }
                let provider = self.cloud_cleanup.as_ref().unwrap();
                let lang: Option<&str> = match &language {
                    Some(l) => Some(l.as_str()),
                    None => None,
                };
                let request = provider.build_request(
                    raw_transcript.as_str(),
                    self.cleanup_strength,
                    lang,
                );
                CleanupStep::SendCloud {
                    url: provider.endpoint_url(),
                    authorization: provider.authorization(),
                    request,
                }
            },
        }
    }

    /// Builds the cloud provider from the settings; a missing base URL or key
    /// is an `InvalidConfig` error, and a missing model name is empty.
    fn build_cloud_provider(&self) -> (r: Result<CloudProvider, CleanupError>)
        ensures
            match cloud_build_outcome(self@) {
                Ok(p) => r matches Ok(c) && c@ == p,
                Err(msg) => r matches Err(CleanupError::InvalidConfig(m)) && m@ == msg,
            },
    {
        let base_url = match &self.cloud_base_url {
            Some(b) => b.clone(),
            None => {
                return Err(CleanupError::InvalidConfig(String::from_str("no cloud cleanup base URL configured")));
            },
        };
        let api_key = match &self.cloud_api_key {
            Some(k) => k.clone(),
            None => {
                return Err(CleanupError::InvalidConfig(String::from_str("no cloud cleanup API key configured")));
            },
        };
        let model = match &self.cloud_model {
            Some(m) => m.clone(),
            None => String::new(),
        };
        CloudProvider::new(base_url, api_key, model)
    }

    /// Fails the session for a failed cleanup pass. The raw transcript is
    /// never passed on in place of a cleaned one: the injectable transcript is
    /// left unset.
    fn fail_cleanup(&mut self, err: CleanupError) -> (r: StatusCode)
        ensures
            r == cleanup_error_status(err),
            final(self)@ == (EngineView {
                last_transcript: None,
                state: after(old(self)@.state, SessionEvent::ProcessingFailed),
                ..old(self)@
            }),
    {
        self.last_transcript = None;
        let _ = self.session.apply(SessionEvent::ProcessingFailed);
        match err {
            CleanupError::NetworkFailed(_) => StatusCode::CleanupNetworkFailed,
            CleanupError::InvalidConfig(_) => StatusCode::CleanupInvalidConfig,
            CleanupError::Timeout | CleanupError::InferenceFailed(_) | CleanupError::ModelNotFound(
                _,
            ) => StatusCode::CleanupFailed,
        }
    }

    /// Takes the outcome of loading the local cleanup model. `Success` means
    /// the caller runs the model next; a failed load fails the session.
    pub fn finish_local_cleanup_load(&mut self, outcome: Result<(), CleanupError>) -> (r: StatusCode)
        ensures
            match outcome {
                Ok(()) => r == StatusCode::Success && final(self)@ == (EngineView {
                    local_cleanup_loaded: true,
                    ..old(self)@
                }),
                Err(e) => r == cleanup_error_status(e) && final(self)@ == (EngineView {
                    last_transcript: None,
                    state: after(old(self)@.state, SessionEvent::ProcessingFailed),
                    ..old(self)@
                }),
            },
    {
        match outcome {
            Ok(()) => {
                self.local_cleanup_loaded = true;
                StatusCode::Success
            },
            Err(e) => self.fail_cleanup(e),
        }
    }

    /// Takes the outcome of the local or cloud cleanup pass. A cleaned
    /// transcript becomes the injectable transcript and the session is done;
    /// a failure fails the session and leaves the injectable transcript
    /// unset, never replaced by the raw transcript.
    pub fn finish_cleanup(&mut self, outcome: Result<String, CleanupError>) -> (r: StatusCode)
        ensures
            match outcome {
                Ok(text) => r == StatusCode::Success && final(self)@ == (EngineView {
                    last_transcript: Some(text@),
                    state: after(old(self)@.state, SessionEvent::ProcessingSucceeded),
                    ..old(self)@
                }),
                Err(e) => r == cleanup_error_status(e) && final(self)@ == (EngineView {
                    last_transcript: None,
                    state: after(old(self)@.state, SessionEvent::ProcessingFailed),
                    ..old(self)@
                }),
            },
    {
        match outcome {
            Ok(text) => {
                self.last_transcript = Some(text);
                let _ = self.session.apply(SessionEvent::ProcessingSucceeded);
                StatusCode::Success
            },
            Err(e) => self.fail_cleanup(e),
        }
    }

    /// Returns a finished session to `Idle`; anywhere else an illegal state.
    pub fn reset(&mut self) -> (r: StatusCode)
        ensures
            match next_state(old(self)@.state, SessionEvent::Reset) {
                Some(n) => r == StatusCode::Success && final(self)@ == (EngineView {
                    state: n,
                    ..old(self)@
                }),
                None => r == StatusCode::IllegalState && final(self)@ == old(self)@,
            },
    {
        match self.session.apply(SessionEvent::Reset) {
            Ok(_) => StatusCode::Success,
            Err(_) => StatusCode::IllegalState,
        }
    }

    /// Forgets the loaded models (and the built cloud provider), so that the
    /// caller can free them; the next use loads them again.
    pub fn unload_cached_models(&mut self)
        ensures
            final(self)@ == (EngineView {
                transcriber_loaded: false,
                local_cleanup_loaded: false,
                cloud_cleanup: None,
                ..old(self)@
            }),
    {
        self.transcriber_loaded = false;
        self.local_cleanup_loaded = false;
        self.cloud_cleanup = None;
    }

    /// Changes the speech-to-text model path; the model is loaded again on
    /// next use.
    pub fn set_model_path(&mut self, path: String)
        ensures
            final(self)@ == (EngineView {
                model_path: path@,
                transcriber_loaded: false,
                ..old(self)@
            }),
    {
        self.model_path = path;
        self.transcriber_loaded = false;
    }

    /// Fixes the transcription language, or with `None` selects auto-detection.
    pub fn set_language(&mut self, language: Option<&str>)
        ensures
            final(self)@ == (EngineView { language: opt_str_view(language), ..old(self)@ }),
    {
        self.transcribe_config.language = match language {
            Some(code) => LanguageSetting::Fixed(String::from_str(code)),
            None => LanguageSetting::Auto,
        };
    }

    /// Sets or clears the language used when auto-detection has too short a clip.
    pub fn set_fallback_language(&mut self, language: Option<&str>)
        ensures
            final(self)@ == (EngineView {
                fallback_language: opt_str_view(language),
                ..old(self)@
            }),
    {
        self.transcribe_config.fallback_language = match language {
            Some(code) => Some(String::from_str(code)),
            None => None,
        };
    }

    /// Replaces the custom vocabulary.
    pub fn set_vocabulary(&mut self, words: Vec<String>)
        ensures
            final(self)@ == (EngineView {
                vocabulary: words@.map_values(|w: String| w@),
                ..old(self)@
            }),
    {
        self.transcribe_config.vocabulary = words;
    }

    /// Replaces the custom blocklist words (the built-in defaults always apply).
    pub fn set_blocklist_words(&mut self, words: Vec<String>)
        ensures
            final(self)@ == (EngineView {
                blocklist_words: words@.map_values(|w: String| w@),
                ..old(self)@
            }),
    {
        self.blocklist_words = words;
    }

    /// Selects the cleanup provider.
    pub fn set_cleanup_provider(&mut self, kind: CleanupProviderKind)
        ensures
            final(self)@ == (EngineView { cleanup_provider: kind, ..old(self)@ }),
    {
        self.cleanup_provider = kind;
    }

    /// Selects the cleanup strength.
    pub fn set_cleanup_strength(&mut self, strength: CleanupStrength)
        ensures
            final(self)@ == (EngineView { cleanup_strength: strength, ..old(self)@ }),
    {
        self.cleanup_strength = strength;
    }

    /// Changes the local cleanup model path; the model is loaded again on next use.
    pub fn set_cleanup_local_model_path(&mut self, path: String)
        ensures
            final(self)@ == (EngineView {
                cleanup_local_model_path: path@,
                local_cleanup_loaded: false,
                ..old(self)@
            }),
    {
        self.cleanup_local_model_path = path;
        self.local_cleanup_loaded = false;
    }

    /// Sets the cloud provider's base URL, key and model; the provider is
    /// built again from them on next use.
    pub fn set_cleanup_cloud_config(&mut self, base_url: String, api_key: String, model: String)
        ensures
            final(self)@ == (EngineView {
                cloud_base_url: Some(base_url@),
                cloud_api_key: Some(api_key@),
                cloud_model: Some(model@),
                cloud_cleanup: None,
                ..old(self)@
            }),
    {
        self.cloud_base_url = Some(base_url);
        self.cloud_api_key = Some(api_key);
        self.cloud_model = Some(model);
        self.cloud_cleanup = None;
    }

    /// Takes a cleaned transcript produced by the host application's own
    /// provider. Only allowed when that provider is selected.
    pub fn set_cleaned_transcript(&mut self, text: String) -> (r: StatusCode)
        ensures
            old(self)@.cleanup_provider != CleanupProviderKind::Apple ==> r
                == StatusCode::IllegalState && final(self)@ == old(self)@,
            old(self)@.cleanup_provider == CleanupProviderKind::Apple ==> r == StatusCode::Success
                && final(self)@ == (EngineView { last_transcript: Some(text@), ..old(self)@ }),
    {
        if self.cleanup_provider != CleanupProviderKind::Apple {
            return StatusCode::IllegalState;
        }
        self.last_transcript = Some(text);
        StatusCode::Success
    }

    /// The transcript ready for injection, if any.
    pub fn last_transcript(&self) -> (r: Option<&str>)
        ensures
            opt_str_view(r) == self@.last_transcript,
    {
        match &self.last_transcript {
            Some(s) => Some(s.as_str()),
            None => None,
        }
    }

    /// The raw transcript (after the blocklist, before cleanup), if any.
    pub fn last_raw_transcript(&self) -> (r: Option<&str>)
        ensures
            opt_str_view(r) == self@.last_raw_transcript,
    {
        match &self.last_raw_transcript {
            Some(s) => Some(s.as_str()),
            None => None,
        }
    }

    /// Whether an audio capture is running.
    pub fn is_capturing(&self) -> (r: bool)
        ensures
            r == self@.capturing,
    {
        self.capturing
    }

    /// Whether the last stopped recording's samples are kept.
    pub fn has_samples(&self) -> (r: bool)
        ensures
            r == self@.has_samples,
    {
        self.has_samples
    }

    /// The speech-to-text model path.
    pub fn model_path(&self) -> (r: &str)
        ensures
            r@ == self@.model_path,
    {
        self.model_path.as_str()
    }

    /// The speech-to-text settings.
    pub fn transcribe_config(&self) -> (r: &TranscribeConfig)
        ensures
            language_view(r.language) == self@.language,
            opt_string_view(r.fallback_language) == self@.fallback_language,
            r.vocabulary@.map_values(|w: String| w@) == self@.vocabulary,
    {
        &self.transcribe_config
    }
}

/// A dictation whose input device cannot be opened is rolled back: from the
/// recording state the hotkey press led to, the engine returns to `Idle`.
pub proof fn lemma_failed_start_returns_to_idle()
    ensures
        after(after(SessionState::Recording, SessionEvent::RecordingFailed), SessionEvent::Reset)
            == SessionState::Idle,
{
}

/// Every failure reported while processing ends the session in `Error`,
/// from which `Reset` starts over.
pub proof fn lemma_processing_failure_is_recoverable()
    ensures
        after(SessionState::Processing, SessionEvent::ProcessingFailed) == SessionState::Error,
        after(SessionState::Error, SessionEvent::Reset) == SessionState::Idle,
{
}

/// Without a cleanup pass no model is loaded and no key is needed: the
/// pass-through provider finishes the session at once and delivers the raw
/// transcript unchanged.
pub proof fn lemma_passthrough_needs_no_model_or_key(
    v: EngineView,
    raw: Seq<char>,
    w: EngineView,
    step: CleanupStep,
)
    requires
        v.cleanup_provider == CleanupProviderKind::Passthrough,
        cleanup_pass(v, raw, w, step),
    ensures
        step == CleanupStep::Done(StatusCode::Success),
        w.last_transcript == Some(raw),
        w.local_cleanup_loaded == v.local_cleanup_loaded,
        w.cloud_cleanup == v.cloud_cleanup,
{
}

/// The cleanup pass uses the strength chosen with `set_cleanup_strength`:
/// the cloud request's system message is that strength's prompt and its user
/// message carries the transcript and the engine's language; the local run
/// is handed the same strength and transcript.
pub proof fn lemma_cleanup_uses_configured_strength(
    v: EngineView,
    raw: Seq<char>,
    w: EngineView,
    step: CleanupStep,
)
    requires
        cleanup_pass(v, raw, w, step),
    ensures
        step matches CleanupStep::SendCloud { request, .. } ==> {
            &&& request.messages@.len() == 2
            &&& request.messages@[0].content@ == system_prompt_text(v.cleanup_strength)
            &&& request.messages@[1].content@ == user_prompt_text(raw, v.language)
        },
        step matches CleanupStep::RunLocal { strength, raw_transcript, .. } ==> strength
            == v.cleanup_strength && raw_transcript@ == raw,
{
}

} // verus!
