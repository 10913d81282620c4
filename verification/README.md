# voicedrop-core

The core of a push-to-talk dictation tool, written in Verus: hold a hotkey,
speak, release, and get cleaned-up text.

`src/` is the verified library:

- `session` — the dictation session state machine (which events are legal in
  which state), with its laws.
- `blocklist` — the deterministic word filter run on every raw transcript:
  tokenizing into word and non-word runs, whole-word case-insensitive removal,
  whitespace and punctuation tidying; the laws that exactly the blocklisted
  words disappear and that filtering twice is filtering once (both on the
  premise that no White_Space character beyond ASCII is alphabetic or
  numeric, a fact of the Unicode database), and what the tidied text looks
  like.
- `cleanup` — cleanup-pass strengths and prompts, the pass-through provider,
  the OpenAI-compatible request, endpoint and answer handling, and the local
  model's generation budget.
- `transcribe` — when a recording is too short, which language to request,
  the custom-vocabulary prompt, joining segments.
- `models` — the model catalog and Ollama suggestions, lookups by id and
  index, file paths.
- `engine` — the decisions of one dictation from key press to transcript; each
  step names the outside work to do next and takes its outcome back.
- `text` — character classes, trimming, joining and the trusted wrappers over
  the standard library's Unicode functions.

`app/` is the unverified edge: audio capture (`cpal`), speech-to-text
(`whisper-rs`), the local model (`llama-cpp-2`), HTTP (`ureq`, `serde`), WAV
files (`hound`), model downloads, and the C ABI used by the host application.
