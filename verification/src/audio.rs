//! Audio capture errors and the sample format that speech-to-text expects.
//! The capture itself, down-mixing and resampling run at the edge.
use vstd::prelude::*;

verus! {

/// Sample rate, in Hz, of the mono buffers handed to speech-to-text.
pub const WHISPER_SAMPLE_RATE: u32 = 16000;

/// Why audio capture failed.
#[derive(Debug)]
pub enum AudioError {
    NoInputDevice,
    UnsupportedConfig(String),
    StreamBuildFailed(String),
    StreamPlayFailed(String),
    /// The input device reported an error (e.g. it was disconnected) during capture.
    DeviceDisconnected,
}

} // verus!
