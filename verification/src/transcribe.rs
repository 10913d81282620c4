//! Speech-to-text settings: when a recording is too short to transcribe,
//! which language to ask for, and the custom-vocabulary prompt. The model run
//! itself happens at the edge.
use vstd::prelude::*;
use crate::audio::WHISPER_SAMPLE_RATE;
use crate::text::{is_whitespace, join_strings, join_with, lemma_trim_shape, trim, trim_str};

verus! {

/// Below this duration, in milliseconds, audio is not transcribed at all: it
/// is almost certainly an accidental brief tap.
pub const MIN_SPEECH_MS: u64 = 300;

/// Below this duration, in milliseconds, language auto-detection is
/// unreliable, so the configured fallback language is used instead.
pub const AUTO_DETECT_MIN_MS: u64 = 2000;

#[derive(Debug)]
pub enum TranscribeError {
    /// The model file is missing; the path is given.
    ModelNotFound(String),
    ModelLoadFailed(String),
    TranscriptionFailed(String),
}

/// Explicit language selection, or auto-detection.
#[derive(Debug, Clone, PartialEq, Eq)]
pub enum LanguageSetting {
    Auto,
    Fixed(String),
}

impl Default for LanguageSetting {
    fn default() -> (r: Self)
        ensures
            r is Auto,
    {
        LanguageSetting::Auto
    }
}

/// Everything speech-to-text needs besides the samples.
#[derive(Debug, Clone)]
pub struct TranscribeConfig {
    pub language: LanguageSetting,
    /// Used instead of auto-detection when the clip is shorter than
    /// `AUTO_DETECT_MIN_MS`.
    pub fallback_language: Option<String>,
    /// The custom vocabulary bias list, given to the model as its initial prompt.
    pub vocabulary: Vec<String>,
}

impl Default for TranscribeConfig {
    fn default() -> (r: Self)
        ensures
            r.language is Auto,
            r.fallback_language is None,
            r.vocabulary@.len() == 0,
    {
        TranscribeConfig {
            language: LanguageSetting::Auto,
            fallback_language: None,
            vocabulary: Vec::new(),
        }
    }
}

/// The duration, in whole milliseconds, of `sample_count` mono samples at
/// `WHISPER_SAMPLE_RATE`.
pub open spec fn duration_ms_spec(sample_count: int) -> int {
    (sample_count * 1000) / (WHISPER_SAMPLE_RATE as int)
}

/// The duration, in whole milliseconds, of a mono buffer of `sample_count`
/// samples at `WHISPER_SAMPLE_RATE`.
pub fn duration_ms(sample_count: usize) -> (r: u64)
    requires
        sample_count * 1000 <= u64::MAX,
    ensures
        r == duration_ms_spec(sample_count as int),
{
    let n: u64 = sample_count as u64;
    (n * 1000) / (WHISPER_SAMPLE_RATE as u64)
}

/// Whether a buffer of `sample_count` samples is too short to transcribe.
pub fn is_too_short(sample_count: usize) -> (r: bool)
    requires
        sample_count * 1000 <= u64::MAX,
    ensures
        r == (duration_ms_spec(sample_count as int) < MIN_SPEECH_MS),
{
    duration_ms(sample_count) < MIN_SPEECH_MS
}

/// A buffer is too short exactly when it holds fewer than 4800 samples
/// (300 ms at 16 kHz).
pub proof fn lemma_too_short_threshold(sample_count: nat)
    ensures
        (duration_ms_spec(sample_count as int) < MIN_SPEECH_MS) <==> sample_count < 4800,
{
}

pub open spec fn language_view(l: LanguageSetting) -> Option<Seq<char>> {
    match l {
        LanguageSetting::Auto => None,
        LanguageSetting::Fixed(code) => Some(code@),
    }
}

pub open spec fn opt_string_view(o: Option<String>) -> Option<Seq<char>> {
    match o {
        Some(s) => Some(s@),
        None => None,
    }
}

/// The language asked of the model: a fixed language always; under
/// auto-detection, the fallback language for clips too short to detect
/// reliably, and no language (let the model detect it) otherwise.
pub open spec fn resolved_language(config: TranscribeConfig, sample_count: int) -> Option<
    Seq<char>,
> {
    match config.language {
        LanguageSetting::Fixed(code) => Some(code@),
        LanguageSetting::Auto => if duration_ms_spec(sample_count) < AUTO_DETECT_MIN_MS {
            opt_string_view(config.fallback_language)
        } else {
            None
        },
    }
}

/// The language code to pass to the model for a clip of `sample_count`
/// samples, applying the short-clip fallback of auto-detection.
pub fn resolve_language(config: &TranscribeConfig, sample_count: usize) -> (r: Option<&str>)
    requires
        sample_count * 1000 <= u64::MAX,
    ensures
        match r {
            Some(s) => resolved_language(*config, sample_count as int) == Some(s@),
            None => resolved_language(*config, sample_count as int) is None,
        },
{
    match &config.language {
        LanguageSetting::Fixed(code) => Some(code.as_str()),
        LanguageSetting::Auto => {
            if duration_ms(sample_count) < AUTO_DETECT_MIN_MS {
                match &config.fallback_language {
                    Some(code) => Some(code.as_str()),
                    None => None,
                }
            } else {
                None
            }
        },
    }
}

/// A fixed language is asked for whatever the clip length and whatever the
/// fallback. The fallback is used only under auto-detection, and there
/// exactly for clips shorter than 2 s (fewer than 32000 samples); longer
/// auto-detected clips ask for no language, so the model detects it.
pub proof fn lemma_language_choice(config: TranscribeConfig, sample_count: nat)
    ensures
        config.language matches LanguageSetting::Fixed(code) ==> resolved_language(
            config,
            sample_count as int,
        ) == Some(code@),
        config.language is Auto && sample_count < 32000 ==> resolved_language(
            config,
            sample_count as int,
        ) == opt_string_view(config.fallback_language),
        config.language is Auto && sample_count >= 32000 ==> resolved_language(
            config,
            sample_count as int,
        ) is None,
        resolved_language(config, sample_count as int) is Some && resolved_language(
            config,
            sample_count as int,
        ) != language_view(config.language) ==> config.language is Auto,
{
}

/// The custom vocabulary joined into the model's initial prompt, or `None`
/// when there is nothing to bias towards.
pub fn build_initial_prompt(vocabulary: &[String]) -> (r: Option<String>)
    ensures
        vocabulary@.len() == 0 ==> r is None,
        vocabulary@.len() > 0 ==> (r matches Some(p) && p@ == join_with(
            vocabulary@.map_values(|w: String| w@),
            ", "@,
        )),
{
    if vocabulary.len() == 0 {
        None
    } else {
        Some(join_strings(vocabulary, ", "))
    }
}

/// The segments' texts, concatenated.
pub open spec fn concat_all(items: Seq<Seq<char>>) -> Seq<char>
    decreases items.len(),
{
    if items.len() == 0 {
        seq![]
    } else {
        concat_all(items.drop_last()) + items.last()
    }
}

/// Concatenating one more segment appends exactly that segment's text, so
/// every segment lands in the transcript, in order, none dropped or changed.
pub proof fn lemma_concat_all_push(items: Seq<Seq<char>>, x: Seq<char>)
    ensures
        concat_all(items.push(x)) == concat_all(items) + x,
{
    assert(items.push(x).drop_last() =~= items);
}

/// Concatenating two runs of segments concatenates their texts.
pub proof fn lemma_concat_all_append(a: Seq<Seq<char>>, b: Seq<Seq<char>>)
    ensures
        concat_all(a + b) == concat_all(a) + concat_all(b),
    decreases b.len(),
{
    if b.len() == 0 {
        assert(a + b =~= a);
        assert(concat_all(a) + concat_all(b) =~= concat_all(a));
    } else {
        let bp = b.drop_last();
        lemma_concat_all_append(a, bp);
        assert((a + b).drop_last() =~= a + bp);
        assert((a + b).last() == b.last());
        assert(concat_all(a) + (concat_all(bp) + b.last()) =~= (concat_all(a) + concat_all(bp))
            + b.last());
    }
}

/// Segment `k` stands in the concatenation right after the segments before
/// it, and the concatenation is as long as all segments together.
pub proof fn lemma_concat_all_holds_each_segment(items: Seq<Seq<char>>, k: int)
    requires
        0 <= k < items.len(),
    ensures
        concat_all(items).subrange(
            concat_all(items.take(k)).len() as int,
            concat_all(items.take(k)).len() + items[k].len() as int,
        ) == items[k],
        concat_all(items).len() == concat_all(items.take(k)).len() + items[k].len() + concat_all(
            items.skip(k + 1),
        ).len(),
{
    let pre = items.take(k);
    let post = items.skip(k + 1);
    assert(items =~= pre.push(items[k]) + post);
    lemma_concat_all_append(pre.push(items[k]), post);
    lemma_concat_all_push(pre, items[k]);
    let c = concat_all(pre);
    assert(concat_all(items) == c + items[k] + concat_all(post));
    assert((c + items[k] + concat_all(post)).subrange(c.len() as int, c.len() + items[k].len() as int)
        =~= items[k]);
}

/// The transcript of segments: their concatenation, trimmed.
pub open spec fn transcript_text(segments: Seq<Seq<char>>) -> Seq<char> {
    trim(concat_all(segments))
}

/// The transcript is the concatenated segments with only the whitespace
/// around them dropped: it is a slice of the concatenation, everything
/// outside the slice is whitespace, and it neither starts nor ends with
/// whitespace.
pub proof fn lemma_transcript_is_trimmed_concatenation(segments: Seq<Seq<char>>)
    ensures
        exists|a: int, b: int|
            0 <= a <= b <= concat_all(segments).len() && transcript_text(segments)
                == concat_all(segments).subrange(a, b) && (forall|j: int|
                0 <= j < concat_all(segments).len() && !(a <= j < b) ==> is_whitespace(
                    #[trigger] concat_all(segments)[j],
                )),
        transcript_text(segments).len() > 0 ==> !is_whitespace(transcript_text(segments)[0])
            && !is_whitespace(transcript_text(segments).last()),
{
    let c = concat_all(segments);
    let ab = lemma_trim_shape(c);
    let y = transcript_text(segments);
    if y.len() > 0 {
        assert(y[0] == c[ab.0]);
        assert(y.last() == c[ab.1 - 1]);
    }
    assert(0 <= ab.0 <= ab.1 <= c.len() && y == c.subrange(ab.0, ab.1) && (forall|j: int|
        0 <= j < c.len() && !(ab.0 <= j < ab.1) ==> is_whitespace(#[trigger] c[j])));
}

/// The raw transcript of a run: its segments concatenated, trimmed. A blank
/// result means near-silent audio without intelligible speech.
pub fn join_segments(segments: &[String]) -> (r: String)
    ensures
        r@ == trim(concat_all(segments@.map_values(|s: String| s@))),
        r@ == transcript_text(segments@.map_values(|s: String| s@)),
{
    let ghost views = segments@.map_values(|s: String| s@);
    let mut text = String::new();
    let mut i: usize = 0;
    while i < segments.len()
        invariant
            i <= segments@.len(),
            views == segments@.map_values(|s: String| s@),
            text@ == concat_all(views.take(i as int)),
        decreases segments@.len() - i,
    {
        assert(views.take(i as int + 1).drop_last() =~= views.take(i as int));
        text.append(segments[i].as_str());
        i = i + 1;
    }
    assert(views.take(segments@.len() as int) =~= views);
    trim_str(text.as_str())
}

} // verus!
