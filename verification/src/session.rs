//! One run of the application, from the first worker that is spawned to the last that is joined.

use std::time::Duration;

use vstd::prelude::*;

use crate::time::duration_nanos;

verus! {

/// The sample rate of the stream.
pub const MIN_SAMPLE_RATE: u32 = 44_000;

/// How long the analysis may stall before samples are dropped: 100 ms.
pub fn buffer_duration() -> (duration: Duration)
    ensures
        duration_nanos(duration) == 100_000_000,
{
    Duration::new(0, 100_000_000)
}

/// How long the analysis runs: one second.
pub fn listen_duration() -> (duration: Duration)
    ensures
        duration_nanos(duration) == 1_000_000_000,
{
    Duration::new(1, 0)
}

/// How far a run has come.
#[derive(Debug, Clone, Copy, PartialEq, Eq, Structural)]
pub enum SessionState {
    /// The audio worker is being spawned.
    SpawningAudio,
    /// The stream is being created.
    CreatingStream,
    /// The analysis runs.
    Listening,
    /// The analysis was killed, and is being joined.
    JoiningAnalysis,
    /// The run waits to be cancelled.
    AwaitingCancel,
    /// The audio worker is being joined.
    JoiningAudio,
    /// The run is over.
    Finished,
}

/// What a run is told.
#[derive(Debug, Clone, Copy, PartialEq, Eq, Structural)]
pub enum SessionEvent {
    /// Whether the audio worker could be spawned.
    AudioSpawned(bool),
    /// Whether the stream could be created.
    StreamCreated(bool),
    /// The time for which the analysis runs has passed.
    Listened,
    /// Whether the analysis did its work, if it was not joined before.
    AnalysisJoined(Option<bool>),
    /// The run was cancelled.
    Cancelled,
    /// Whether the audio worker did its work.
    AudioJoined(bool),
}

/// Why a run failed.
#[derive(Debug, Clone, Copy, PartialEq, Eq, Structural)]
pub enum SessionError {
    SpawnAudio,
    CreateStream,
    Analysis,
    Audio,
}

impl SessionError {
    /// What is put in front of the error that the worker gave.
    pub open spec fn text(self) -> Option<Seq<char>> {
        match self {
            SessionError::SpawnAudio => Some("failed to spawn audio worker"@),
            SessionError::CreateStream => Some("failed to create stream"@),
            SessionError::Analysis => None,
            SessionError::Audio => Some("error in audio worker"@),
        }
    }

    /// What is put in front of the error that the worker gave.
    pub fn message(self) -> (message: Option<&'static str>)
        ensures
            match message {
                Some(m) => self.text() == Some(m@),
                None => self.text() is None,
            },
            message is None <==> self is Analysis,
            self is SpawnAudio ==> message->0@ == "failed to spawn audio worker"@,
            self is CreateStream ==> message->0@ == "failed to create stream"@,
            self is Audio ==> message->0@ == "error in audio worker"@,
    {
        match self {
            SessionError::SpawnAudio => Some("failed to spawn audio worker"),
            SessionError::CreateStream => Some("failed to create stream"),
            SessionError::Analysis => None,
            SessionError::Audio => Some("error in audio worker"),
        }
    }
}

/// What a run does next.
#[derive(Debug, Clone, Copy, PartialEq, Eq)]
pub enum SessionAction {
    /// Create a stream of [`MIN_SAMPLE_RATE`] that is buffered for [`buffer_duration`].
    CreateStream,
    /// Spawn the analysis, and wait for [`listen_duration`].
    Listen,
    /// Kill the analysis, and join it.
    JoinAnalysis,
    /// Wait to be cancelled.
    AwaitCancel,
    /// Join the audio worker.
    JoinAudio,
    /// Return this.
    Finish(Result<(), SessionError>),
}

/// Whether `event` is what `state` waits for.
pub open spec fn session_awaits(state: SessionState, event: SessionEvent) -> bool {
    match state {
        SessionState::SpawningAudio => event is AudioSpawned,
        SessionState::CreatingStream => event is StreamCreated,
        SessionState::Listening => event is Listened,
        SessionState::JoiningAnalysis => event is AnalysisJoined,
        SessionState::AwaitingCancel => event is Cancelled,
        SessionState::JoiningAudio => event is AudioJoined,
        SessionState::Finished => false,
    }
}

/// What a run does when it is told `event`.
pub open spec fn session_next(event: SessionEvent) -> (SessionState, SessionAction) {
    match event {
        SessionEvent::AudioSpawned(true) => (
            SessionState::CreatingStream,
            SessionAction::CreateStream,
        ),
        SessionEvent::AudioSpawned(false) => failed(SessionError::SpawnAudio),
        SessionEvent::StreamCreated(true) => (SessionState::Listening, SessionAction::Listen),
        SessionEvent::StreamCreated(false) => failed(SessionError::CreateStream),
        SessionEvent::Listened => (SessionState::JoiningAnalysis, SessionAction::JoinAnalysis),
        SessionEvent::AnalysisJoined(Some(false)) => failed(SessionError::Analysis),
        SessionEvent::AnalysisJoined(_) => (
            SessionState::AwaitingCancel,
            SessionAction::AwaitCancel,
        ),
        SessionEvent::Cancelled => (SessionState::JoiningAudio, SessionAction::JoinAudio),
        SessionEvent::AudioJoined(true) => (
            SessionState::Finished,
            SessionAction::Finish(Ok(())),
        ),
        SessionEvent::AudioJoined(false) => failed(SessionError::Audio),
    }
}

/// The run is over, with an error.
pub open spec fn failed(error: SessionError) -> (SessionState, SessionAction) {
    (SessionState::Finished, SessionAction::Finish(Err(error)))
}

/// Runs the application, one step at a time.
pub fn session(state: SessionState, event: SessionEvent) -> (step: (SessionState, SessionAction))
    requires
        session_awaits(state, event),
    ensures
        step == session_next(event),
{
    match event {
        SessionEvent::AudioSpawned(ok) => if ok {
            (SessionState::CreatingStream, SessionAction::CreateStream)
        } else {
            fail(SessionError::SpawnAudio)
        },
        SessionEvent::StreamCreated(ok) => if ok {
            (SessionState::Listening, SessionAction::Listen)
        } else {
            fail(SessionError::CreateStream)
        },
        SessionEvent::Listened => (SessionState::JoiningAnalysis, SessionAction::JoinAnalysis),
        SessionEvent::AnalysisJoined(result) => match result {
            Some(false) => fail(SessionError::Analysis),
            _ => (SessionState::AwaitingCancel, SessionAction::AwaitCancel),
        },
        SessionEvent::Cancelled => (SessionState::JoiningAudio, SessionAction::JoinAudio),
        SessionEvent::AudioJoined(ok) => if ok {
            (SessionState::Finished, SessionAction::Finish(Ok(())))
        } else {
            fail(SessionError::Audio)
        },
    }
}

/// Gives up.
fn fail(error: SessionError) -> (step: (SessionState, SessionAction))
    ensures
        step == failed(error),
{
    (SessionState::Finished, SessionAction::Finish(Err(error)))
}

/// The number of steps that a run still takes at most.
pub open spec fn session_steps_left(state: SessionState) -> nat {
    match state {
        SessionState::SpawningAudio => 6,
        SessionState::CreatingStream => 5,
        SessionState::Listening => 4,
        SessionState::JoiningAnalysis => 3,
        SessionState::AwaitingCancel => 2,
        SessionState::JoiningAudio => 1,
        SessionState::Finished => 0,
    }
}

/// A run goes through its steps in order, and is over when it returns. It succeeds only at the very
/// end, when all that came before did.
pub proof fn law_session_goes_in_order(state: SessionState, event: SessionEvent)
    requires
        session_awaits(state, event),
    ensures
        session_next(event).0 is Finished <==> session_next(event).1 is Finish,
        session_next(event).0 is Finished || session_steps_left(session_next(event).0)
            == session_steps_left(state) - 1,
        session_next(event).1 == SessionAction::Finish(Ok(())) ==> state is JoiningAudio,
{
}


/// A run fails just where one of its workers or its stream does, each with its own error, and it
/// succeeds just where the audio worker, joined last, did its work. An analysis that was joined
/// before does not count as one that failed.
pub proof fn law_session_ends_as_its_workers_do(state: SessionState, event: SessionEvent)
    requires
        session_awaits(state, event),
    ensures
        session_next(event).1 == SessionAction::Finish(Err(SessionError::SpawnAudio)) <==> event
            == SessionEvent::AudioSpawned(false),
        session_next(event).1 == SessionAction::Finish(Err(SessionError::CreateStream)) <==> event
            == SessionEvent::StreamCreated(false),
        session_next(event).1 == SessionAction::Finish(Err(SessionError::Analysis)) <==> event
            == SessionEvent::AnalysisJoined(Some(false)),
        session_next(event).1 == SessionAction::Finish(Err(SessionError::Audio)) <==> event
            == SessionEvent::AudioJoined(false),
        session_next(event).1 == SessionAction::Finish(Ok(())) <==> event
            == SessionEvent::AudioJoined(true),
{
}

/// While nothing fails, a run creates the stream, listens, joins the analysis, waits to be
/// cancelled and joins the audio worker, in that order, and each once.
pub proof fn law_session_does_each_thing_in_turn(state: SessionState, event: SessionEvent)
    requires
        session_awaits(state, event),
        !(session_next(event).1 is Finish),
    ensures
        state is SpawningAudio <==> session_next(event).1 is CreateStream,
        state is CreatingStream <==> session_next(event).1 is Listen,
        state is Listening <==> session_next(event).1 is JoinAnalysis,
        state is JoiningAnalysis <==> session_next(event).1 is AwaitCancel,
        state is AwaitingCancel <==> session_next(event).1 is JoinAudio,
        state is SpawningAudio <==> session_next(event).0 is CreatingStream,
        state is CreatingStream <==> session_next(event).0 is Listening,
        state is Listening <==> session_next(event).0 is JoiningAnalysis,
        state is JoiningAnalysis <==> session_next(event).0 is AwaitingCancel,
        state is AwaitingCancel <==> session_next(event).0 is JoiningAudio,
{
}

/// A run takes every answer to what it does, and nothing else.
pub proof fn law_session_takes_every_answer(state: SessionState, event: SessionEvent)
    ensures
        session_awaits(state, event) <==> {
            ||| state is SpawningAudio && event is AudioSpawned
            ||| state is CreatingStream && event is StreamCreated
            ||| state is Listening && event is Listened
            ||| state is JoiningAnalysis && event is AnalysisJoined
            ||| state is AwaitingCancel && event is Cancelled
            ||| state is JoiningAudio && event is AudioJoined
        },
        MIN_SAMPLE_RATE == 44_000,
{
}

} // verus!
