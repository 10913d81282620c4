use voicedrop_core::session::{IllegalTransition, Session, SessionEvent, SessionState};
use SessionEvent::{
    Discard, HotkeyDown, HotkeyUp, NoSpeechDetected, ProcessingFailed, ProcessingSucceeded,
    RecordingFailed, Reset,
};
use SessionState::{Discarded, Done, Error, Idle, NoSpeech, Processing, Recording};

#[test]
fn starts_idle() {
    assert_eq!(Session::new().state(), Idle);
}

#[test]
fn happy_path_idle_to_done_to_idle() {
    let mut s = Session::new();
    assert_eq!(s.apply(HotkeyDown), Ok(Recording));
    assert_eq!(s.apply(HotkeyUp), Ok(Processing));
    assert_eq!(s.apply(ProcessingSucceeded), Ok(Done));
    assert_eq!(s.apply(Reset), Ok(Idle));
}

#[test]
fn processing_failure_reaches_error_then_resets() {
    let mut s = Session::new();
    s.apply(HotkeyDown).unwrap();
    s.apply(HotkeyUp).unwrap();
    assert_eq!(s.apply(ProcessingFailed), Ok(Error));
    assert_eq!(s.apply(Reset), Ok(Idle));
}

#[test]
fn discard_from_recording_or_processing_reaches_discarded() {
    let mut s = Session::new();
    s.apply(HotkeyDown).unwrap();
    assert_eq!(s.apply(Discard), Ok(Discarded));

    let mut s2 = Session::new();
    s2.apply(HotkeyDown).unwrap();
    s2.apply(HotkeyUp).unwrap();
    assert_eq!(s2.apply(Discard), Ok(Discarded));
}

#[test]
fn illegal_transitions_are_rejected_and_state_is_unchanged() {
    let mut s = Session::new();
    let err = s.apply(HotkeyUp).unwrap_err();
    assert_eq!(
        err,
        IllegalTransition {
            from: Idle,
            event: HotkeyUp
        }
    );
    assert_eq!(s.state(), Idle);
}

#[test]
fn cannot_skip_recording_straight_to_processing_success() {
    let mut s = Session::new();
    assert!(s.apply(ProcessingSucceeded).is_err());
    assert_eq!(s.state(), Idle);
}

#[test]
fn recording_failure_e_g_device_disconnect_reaches_error_then_resets() {
    let mut s = Session::new();
    s.apply(HotkeyDown).unwrap();
    assert_eq!(s.apply(RecordingFailed), Ok(Error));
    assert_eq!(s.apply(Reset), Ok(Idle));
}

#[test]
fn no_speech_detected_reaches_no_speech_then_resets() {
    let mut s = Session::new();
    s.apply(HotkeyDown).unwrap();
    s.apply(HotkeyUp).unwrap();
    assert_eq!(s.apply(NoSpeechDetected), Ok(NoSpeech));
    assert_eq!(s.apply(Reset), Ok(Idle));
}

#[test]
fn cannot_reset_from_non_terminal_states() {
    let mut s = Session::new();
    assert!(s.apply(Reset).is_err());
    s.apply(HotkeyDown).unwrap();
    assert!(s.apply(Reset).is_err());
}

#[test]
fn default_session_is_idle() {
    assert_eq!(Session::default().state(), Idle);
}

#[test]
fn every_terminal_state_resets_to_idle_and_others_reject_reset() {
    // Done
    let mut s = Session::new();
    s.apply(HotkeyDown).unwrap();
    s.apply(HotkeyUp).unwrap();
    s.apply(ProcessingSucceeded).unwrap();
    assert_eq!(s.apply(Reset), Ok(Idle));
    // Processing rejects Reset and stays
    let mut p = Session::new();
    p.apply(HotkeyDown).unwrap();
    p.apply(HotkeyUp).unwrap();
    assert_eq!(
        p.apply(Reset),
        Err(IllegalTransition {
            from: Processing,
            event: Reset
        })
    );
    assert_eq!(p.state(), Processing);
}

#[test]
fn no_speech_only_from_processing() {
    let mut s = Session::new();
    s.apply(HotkeyDown).unwrap();
    assert!(s.apply(NoSpeechDetected).is_err());
    assert_eq!(s.state(), Recording);
}

#[test]
fn idle_rejects_everything_but_hotkey_down() {
    for e in [
        HotkeyUp,
        ProcessingSucceeded,
        ProcessingFailed,
        NoSpeechDetected,
        RecordingFailed,
        Discard,
        Reset,
    ] {
        let mut s = Session::new();
        assert!(s.apply(e).is_err());
        assert_eq!(s.state(), Idle);
    }
}
