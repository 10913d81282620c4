//! Core logic of a push-to-talk dictation tool: the dictation session state
//! machine, the word blocklist, the cleanup-pass request building, language
//! and prompt selection for speech-to-text, the model catalog, and the
//! decisions of the engine that drives one dictation from key press to text.
#![allow(unused_imports)]

pub mod session;
pub mod text;
pub mod blocklist;
pub mod cleanup;
pub mod audio;
pub mod transcribe;
pub mod models;
pub mod engine;

use vstd::prelude::*;

verus! {

/// A fixed greeting, used to check that the host can reach the library.
pub fn ping() -> (r: String)
    ensures
        r@ == "pong from voicedrop-core"@,
{
    String::from_str("pong from voicedrop-core")
}

} // verus!
