//! The dictation session state machine. Pure logic: the caller threads audio
//! and transcripts through as they become available; this module only decides
//! which transitions are legal.
use vstd::prelude::*;

verus! {

/// The states a dictation session moves through.
#[derive(Debug, Clone, Copy, PartialEq, Eq, Structural)]
pub enum SessionState {
    Idle,
    Recording,
    Processing,
    Done,
    /// The session was explicitly thrown away.
    Discarded,
    /// The raw transcript came back empty, so no cleanup pass ran.
    NoSpeech,
    Error,
}

/// The events that drive a session.
#[derive(Debug, Clone, Copy, PartialEq, Eq, Structural)]
pub enum SessionEvent {
    /// Push-to-talk hotkey pressed.
    HotkeyDown,
    /// Push-to-talk hotkey released.
    HotkeyUp,
    /// Speech-to-text and cleanup finished successfully.
    ProcessingSucceeded,
    /// The pipeline failed at some stage.
    ProcessingFailed,
    /// The raw transcript was empty, or the recording too short to transcribe.
    NoSpeechDetected,
    /// Audio capture failed before there was anything to process.
    RecordingFailed,
    /// The session was explicitly discarded.
    Discard,
    /// Back to `Idle` after a terminal state.
    Reset,
}

/// A rejected event, with the state it was rejected in.
#[derive(Debug, Clone, Copy, PartialEq, Eq, Structural)]
pub struct IllegalTransition {
    pub from: SessionState,
    pub event: SessionEvent,
}

/// The transition table: the state that `event` leads to from `from`, or
/// `None` where the event is illegal in that state.
pub open spec fn next_state(from: SessionState, event: SessionEvent) -> Option<SessionState> {
    match (from, event) {
        (SessionState::Idle, SessionEvent::HotkeyDown) => Some(SessionState::Recording),
        (SessionState::Recording, SessionEvent::HotkeyUp) => Some(SessionState::Processing),
        (SessionState::Recording, SessionEvent::Discard) => Some(SessionState::Discarded),
        (SessionState::Recording, SessionEvent::RecordingFailed) => Some(SessionState::Error),
        (SessionState::Processing, SessionEvent::ProcessingSucceeded) => Some(SessionState::Done),
        (SessionState::Processing, SessionEvent::ProcessingFailed) => Some(SessionState::Error),
        (SessionState::Processing, SessionEvent::NoSpeechDetected) => Some(SessionState::NoSpeech),
        (SessionState::Processing, SessionEvent::Discard) => Some(SessionState::Discarded),
        (SessionState::Done, SessionEvent::Reset) => Some(SessionState::Idle),
        (SessionState::Discarded, SessionEvent::Reset) => Some(SessionState::Idle),
        (SessionState::Error, SessionEvent::Reset) => Some(SessionState::Idle),
        (SessionState::NoSpeech, SessionEvent::Reset) => Some(SessionState::Idle),
        _ => None,
    }
}

/// The states that end a session and from which only `Reset` leads on.
pub open spec fn is_terminal(s: SessionState) -> bool {
    s == SessionState::Done || s == SessionState::Discarded || s == SessionState::Error
        || s == SessionState::NoSpeech
}

/// What `Session::apply` returns for `event` in state `from`.
pub open spec fn apply_result(from: SessionState, event: SessionEvent) -> Result<
    SessionState,
    IllegalTransition,
> {
    match next_state(from, event) {
        Some(next) => Ok(next),
        None => Err(IllegalTransition { from, event }),
    }
}

/// One dictation session's state.
#[derive(Debug, Clone, Copy, PartialEq, Eq)]
pub struct Session {
    state: SessionState,
}

impl View for Session {
    type V = SessionState;

    closed spec fn view(&self) -> SessionState {
        self.state
    }
}

impl Default for Session {
    fn default() -> (s: Self)
        ensures
            s@ == SessionState::Idle,
    {
        Self::new()
    }
}

impl Session {
    /// A fresh session, in `Idle`.
    pub fn new() -> (s: Self)
        ensures
            s@ == SessionState::Idle,
    {
        Session { state: SessionState::Idle }
    }

    /// The current state.
    pub fn state(&self) -> (s: SessionState)
        ensures
            s == self@,
    {
        self.state
    }

    /// Attempts the transition for `event`. On success the session moves to
    /// the new state, which is returned; on an illegal transition the session
    /// is left unchanged and the error names the state and the event.
    pub fn apply(&mut self, event: SessionEvent) -> (r: Result<SessionState, IllegalTransition>)
        ensures
            r == apply_result(old(self)@, event),
            match r {
                Ok(next) => final(self)@ == next,
                Err(_) => final(self)@ == old(self)@,
            },
    {
        let next = match (self.state, event) {
            (SessionState::Idle, SessionEvent::HotkeyDown) => SessionState::Recording,
            (SessionState::Recording, SessionEvent::HotkeyUp) => SessionState::Processing,
            (SessionState::Recording, SessionEvent::Discard) => SessionState::Discarded,
            (SessionState::Recording, SessionEvent::RecordingFailed) => SessionState::Error,
            (SessionState::Processing, SessionEvent::ProcessingSucceeded) => SessionState::Done,
            (SessionState::Processing, SessionEvent::ProcessingFailed) => SessionState::Error,
            (SessionState::Processing, SessionEvent::NoSpeechDetected) => SessionState::NoSpeech,
            (SessionState::Processing, SessionEvent::Discard) => SessionState::Discarded,
            (SessionState::Done, SessionEvent::Reset)
            | (SessionState::Discarded, SessionEvent::Reset)
            | (SessionState::Error, SessionEvent::Reset)
            | (SessionState::NoSpeech, SessionEvent::Reset) => SessionState::Idle,
            _ => {
                return Err(IllegalTransition { from: self.state, event });
            },
        };
        self.state = next;
        Ok(next)
    }
}

/// `Reset` returns every terminal state to `Idle`, and is rejected in every
/// other state.
pub proof fn lemma_reset_only_from_terminal(s: SessionState)
    ensures
        is_terminal(s) ==> next_state(s, SessionEvent::Reset) == Some(SessionState::Idle),
        !is_terminal(s) ==> next_state(s, SessionEvent::Reset).is_none(),
{
}

/// A new session can only be started from `Idle`, and `Idle` accepts no
/// event but the hotkey press.
pub proof fn lemma_idle_accepts_only_hotkey_down(s: SessionState, e: SessionEvent)
    ensures
        next_state(s, e) == Some(SessionState::Recording) <==> (s == SessionState::Idle && e
            == SessionEvent::HotkeyDown),
        s == SessionState::Idle && e != SessionEvent::HotkeyDown ==> next_state(s, e).is_none(),
{
}

/// Terminal states are entered only from `Recording` or `Processing`; a
/// successful result and the no-speech outcome only from `Processing`.
pub proof fn lemma_terminal_states_entered_from_active_states(s: SessionState, e: SessionEvent)
    ensures
        (next_state(s, e) matches Some(t) && is_terminal(t)) ==> (s == SessionState::Recording
            || s == SessionState::Processing),
        next_state(s, e) == Some(SessionState::Done) ==> s == SessionState::Processing,
        next_state(s, e) == Some(SessionState::NoSpeech) ==> s == SessionState::Processing,
        next_state(s, e) == Some(SessionState::Processing) ==> s == SessionState::Recording,
{
}

/// From every state there is a way back to `Idle` in at most two events:
/// a session can never get stuck.
pub proof fn lemma_idle_always_reachable(s: SessionState)
    ensures
        s == SessionState::Idle || next_state(s, SessionEvent::Reset) == Some(SessionState::Idle)
            || (next_state(s, SessionEvent::Discard) == Some(SessionState::Discarded)
            && next_state(SessionState::Discarded, SessionEvent::Reset) == Some(
            SessionState::Idle)),
{
}

} // verus!
