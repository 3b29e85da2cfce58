use std::time::Duration;

use sp_app::session::{
    buffer_duration, listen_duration, session, SessionAction, SessionError, SessionEvent,
    SessionState, MIN_SAMPLE_RATE,
};
use sp_app::ui::TextureState;
use sp_app::workers::analysis::{
    extract_column, peak, poll, poll_interval, Color32, Entry, EntryAction, EntryEvent, MAX_CHUNKS_TO_POP,
};
use sp_app::workers::audio::{
    create_stream_outcome, ping_outcome, push_data, send_outcome, start_outcome, supervisor,
    Consumer, CreateStreamError, PingError, Producer, Request, Response, RpcError, StartError,
    StartFailure, StreamConfig, StreamError, StreamHandle, SupervisorAction, SupervisorEvent, SupervisorState,
};
use sp_app::workers::stream::{
    can_make_buffer, select_config, stream_setup, try_stream_setup, ConfigRange, SetupAction,
    SetupEvent, SetupState,
};
use sp_app::workers::task::{join, Task, TaskOutcome, WorkerError};
use sp_app::{DefaultStftSettings, Spectrogram};

const MONO: ConfigRange =
    ConfigRange { channels: 1, min_sample_rate: 8_000, max_sample_rate: 48_000 };
const STEREO: ConfigRange =
    ConfigRange { channels: 2, min_sample_rate: 8_000, max_sample_rate: 48_000 };
const SLOW: ConfigRange = ConfigRange { channels: 1, min_sample_rate: 1, max_sample_rate: 8_000 };
const FAST: ConfigRange =
    ConfigRange { channels: 1, min_sample_rate: 96_000, max_sample_rate: 192_000 };

/// The ends of a ring buffer for `buffer_duration`.
fn ends(buffer_duration: Duration, sample_rate: u32) -> (Producer, Consumer) {
    let state = SetupState::Querying { buffer_duration, sample_rate };
    let every = ConfigRange { channels: 1, min_sample_rate: 0, max_sample_rate: u32::MAX };
    match stream_setup(state, SetupEvent::Queried(Some(vec![every]))) {
        (SetupState::Building { consumer, .. }, SetupAction::Build { producer, .. }) => {
            (producer, consumer)
        }
        _ => panic!("no stream"),
    }
}

fn singles(from: usize, len: usize) -> Vec<u32> {
    (from..from + len).map(|i| ((i as f32) * 0.01).sin().to_bits()).collect()
}

fn doubles(singles: &[u32]) -> Vec<u64> {
    singles.iter().map(|s| f64::from(f32::from_bits(*s)).to_bits()).collect()
}

fn columns(spec: &Spectrogram<DefaultStftSettings>) -> Vec<Vec<u64>> {
    spec.frequency_magnitudes_iter().map(|c| c.as_slice().to_vec()).collect()
}

#[test]
fn polls_four_times_per_buffer() {
    assert_eq!(poll_interval(Duration::from_millis(100)), Duration::from_millis(25));
    assert_eq!(poll_interval(Duration::from_secs(7)), Duration::from_millis(1_750));
    assert_eq!(poll_interval(Duration::from_nanos(7)), Duration::from_nanos(1));
    assert_eq!(poll_interval(Duration::MAX), Duration::MAX / 4);
    assert_eq!(poll_interval(Duration::ZERO), Duration::ZERO);
}

#[test]
fn less_than_a_chunk_is_left_alone() {
    let (mut tx, mut rx) = ends(Duration::from_secs(1), 44_000);
    let mut spec = Spectrogram::new(44_000);
    assert_eq!(poll(&mut spec, &mut rx), 0);
    push_data(&mut tx, &singles(0, 2047));
    assert_eq!(poll(&mut spec, &mut rx), 0);
    assert!(columns(&spec).is_empty());
    push_data(&mut tx, &singles(2047, 1));
    assert_eq!(poll(&mut spec, &mut rx), 1);
    assert_eq!(columns(&spec).len(), 1);
}

#[test]
fn samples_are_drawn_in_the_order_they_came() {
    let (mut tx, mut rx) = ends(Duration::from_secs(1), 44_000);
    let mut spec = Spectrogram::new(44_000);
    let samples = singles(0, 3 * 2048 + 100);
    for part in samples.chunks(700) {
        push_data(&mut tx, part);
    }
    assert_eq!(poll(&mut spec, &mut rx), 3);
    let more = singles(samples.len(), 2048 - 100);
    push_data(&mut tx, &more);
    assert_eq!(poll(&mut spec, &mut rx), 1);

    let all: Vec<u32> = samples.iter().chain(&more).copied().collect();
    let mut expected = Spectrogram::<DefaultStftSettings>::new(44_000);
    expected.push_samples(&doubles(&all[..3 * 2048]));
    expected.push_samples(&doubles(&all[3 * 2048..]));
    assert_eq!(columns(&spec), columns(&expected));
    assert_eq!(columns(&spec).len(), 6);
}

#[test]
fn no_more_than_the_limit_is_popped_at_once() {
    let (mut tx, mut rx) = ends(Duration::from_secs(1), 44_000);
    let mut spec = Spectrogram::new(44_000);
    push_data(&mut tx, &singles(0, 10 * 2048));
    assert_eq!(poll(&mut spec, &mut rx), MAX_CHUNKS_TO_POP as usize);
    assert_eq!(poll(&mut spec, &mut rx), 2);
    assert_eq!(poll(&mut spec, &mut rx), 0);
}

#[test]
fn a_full_buffer_drops_the_newest() {
    // 2048 samples per second, buffered for two seconds.
    let (mut tx, mut rx) = ends(Duration::from_secs(2), 2048);
    let samples = singles(0, 5000);
    push_data(&mut tx, &samples[..3000]);
    push_data(&mut tx, &samples[3000..]);
    push_data(&mut tx, &[1, 2, 3]);
    let mut spec = Spectrogram::new(2048);
    assert_eq!(poll(&mut spec, &mut rx), 2);
    let mut expected = Spectrogram::<DefaultStftSettings>::new(2048);
    expected.push_samples(&doubles(&samples[..4096]));
    assert_eq!(columns(&spec), columns(&expected));
}

#[test]
fn a_delivery_over_the_capacity_keeps_the_capacity() {
    let (mut tx, mut rx) = ends(Duration::from_secs(1), 2048);
    let samples = singles(0, 5000);
    push_data(&mut tx, &samples);
    let mut spec = Spectrogram::new(2048);
    assert_eq!(poll(&mut spec, &mut rx), 1);
    assert_eq!(poll(&mut spec, &mut rx), 0);
    let mut expected = Spectrogram::<DefaultStftSettings>::new(2048);
    expected.push_samples(&doubles(&samples[..2048]));
    assert_eq!(columns(&spec), columns(&expected));
}

#[test]
fn nothing_is_lost_in_the_middle_of_a_run() {
    let (mut tx, mut rx) = ends(Duration::from_secs(2), 2048);
    let mut spec = Spectrogram::new(2048);
    let samples = singles(0, 6 * 2048);
    push_data(&mut tx, &samples[..2048]);
    assert_eq!(poll(&mut spec, &mut rx), 1);
    for part in samples[2048..3 * 2048].chunks(500) {
        push_data(&mut tx, part);
    }
    push_data(&mut tx, &[1, 2, 3]);
    assert_eq!(poll(&mut spec, &mut rx), 2);
    let mut expected = Spectrogram::<DefaultStftSettings>::new(2048);
    expected.push_samples(&doubles(&samples[..2048]));
    expected.push_samples(&doubles(&samples[2048..3 * 2048]));
    assert_eq!(columns(&spec), columns(&expected));
}

#[test]
fn the_peak_is_the_greatest_in_the_reversed_order() {
    let of = |numbers: &[f64]| {
        let bits: Vec<u64> = numbers.iter().map(|n| n.to_bits()).collect();
        peak(&bits).map(f64::from_bits)
    };
    assert_eq!(of(&[]), None);
    assert_eq!(of(&[7.0]), Some(7.0));
    assert_eq!(of(&[3.0, 1.0, 2.0]), Some(1.0));
    assert!(of(&[0.0, -0.0]).is_some_and(f64::is_sign_positive));
    assert_eq!(of(&[1.0, f64::NAN, 5.0]), Some(5.0));
    assert!(of(&[1.0, f64::NAN]).is_some_and(f64::is_nan));
}

#[test]
fn a_stalled_consumer_loses_nothing_for_the_buffer_duration() {
    let (mut tx, mut rx) = ends(Duration::from_millis(100), 44_000);
    let samples = singles(0, 4_400);
    for part in samples.chunks(441) {
        push_data(&mut tx, part);
    }
    let mut spec = Spectrogram::new(44_000);
    assert_eq!(poll(&mut spec, &mut rx), 2);
    push_data(&mut tx, &singles(4_400, 3 * 2048 - 4_400));
    assert_eq!(poll(&mut spec, &mut rx), 1);
    let mut expected = Spectrogram::<DefaultStftSettings>::new(44_000);
    let all = singles(0, 3 * 2048);
    expected.push_samples(&doubles(&all[..4096]));
    expected.push_samples(&doubles(&all[4096..]));
    assert_eq!(columns(&spec), columns(&expected));
}

#[test]
fn entry_polls_until_it_is_cancelled() {
    let (mut tx, rx) = ends(Duration::from_secs(1), 44_000);
    let mut entry = Entry::new(44_000, rx);
    push_data(&mut tx, &singles(0, 2048));
    assert_eq!(entry.step(EntryEvent::Checked { cancelled: false }), EntryAction::Tick);
    assert!(columns(&entry.spec).is_empty());
    assert_eq!(entry.step(EntryEvent::Ticked), EntryAction::Check);
    assert_eq!(columns(&entry.spec).len(), 1);
    assert_eq!(entry.step(EntryEvent::Checked { cancelled: true }), EntryAction::Stop);
    assert_eq!(columns(&entry.spec).len(), 1);
    assert_eq!(entry.spec.frequency_bins().hz().len(), 1025);
}

#[test]
fn there_is_one_look_per_tick() {
    let (mut tx, rx) = ends(Duration::from_secs(1), 44_000);
    let mut entry = Entry::new(44_000, rx);
    let mut action = EntryAction::Check;
    for turn in 0..6 {
        if action == EntryAction::Tick {
            push_data(&mut tx, &singles(0, 2048));
        }
        let event = match action {
            EntryAction::Check => EntryEvent::Checked { cancelled: false },
            EntryAction::Tick => EntryEvent::Ticked,
            EntryAction::Stop => panic!("stopped"),
        };
        action = entry.step(event);
        assert_eq!(columns(&entry.spec).len(), (turn + 1) / 2);
    }
}

#[test]
fn extracts_the_colors_of_a_column() {
    let mut spec = Spectrogram::<DefaultStftSettings>::new(44_000);
    spec.push_samples(&doubles(&singles(0, 4096)));
    let gradient = |m: u64| [(m >> 56) as u8, (m >> 48) as u8, m as u8, 7];
    let mut out = vec![Color32::from_rgb(1, 2, 3)];
    assert!(extract_column(&spec, 1, &mut out, gradient));
    let expected: Vec<Color32> = spec
        .column(1)
        .unwrap()
        .as_slice()
        .iter()
        .map(|m| {
            let c = gradient(*m);
            Color32 { r: c[0], g: c[1], b: c[2], a: 255 }
        })
        .collect();
    assert_eq!(out, expected);
    assert_eq!(out.len(), 1025);
}

#[test]
fn a_column_out_of_bounds_is_not_extracted() {
    let mut spec = Spectrogram::<DefaultStftSettings>::new(44_000);
    spec.push_samples(&doubles(&singles(0, 2048)));
    let mut out = vec![Color32::from_rgb(1, 2, 3)];
    assert!(!extract_column(&spec, 1, &mut out, |_| [0; 4]));
    assert_eq!(out, vec![Color32 { r: 1, g: 2, b: 3, a: 255 }]);
    assert!(extract_column(&spec, 0, &mut out, |_| [0; 4]));
}

#[test]
fn the_first_mono_config_in_range_is_selected() {
    assert_eq!(select_config(&[STEREO, SLOW, FAST, MONO, MONO], 44_000), Some(3));
    assert_eq!(select_config(&[MONO], 8_000), Some(0));
    assert_eq!(select_config(&[MONO], 48_000), Some(0));
    assert_eq!(select_config(&[MONO], 7_999), None);
    assert_eq!(select_config(&[MONO], 48_001), None);
    assert_eq!(select_config(&[STEREO], 44_000), None);
    assert_eq!(select_config(&[], 44_000), None);
}

fn error_of(step: (SetupState, SetupAction)) -> StreamError {
    match step {
        (SetupState::Finished, SetupAction::Finish(Err(error))) => error,
        _ => panic!("not an error"),
    }
}

#[test]
fn stream_is_set_up() {
    let (buffer_duration, sample_rate) = (Duration::from_millis(100), 44_000);
    let state = SetupState::New { buffer_duration, sample_rate };
    let (state, action) = stream_setup(state, SetupEvent::Begin);
    assert!(matches!(action, SetupAction::Enumerate));
    let (state, action) = stream_setup(state, SetupEvent::Enumerated(true));
    assert!(matches!(action, SetupAction::FindDevice));
    let (state, action) = stream_setup(state, SetupEvent::DeviceFound(true));
    assert!(matches!(action, SetupAction::Query));
    let (state, action) =
        stream_setup(state, SetupEvent::Queried(Some(vec![STEREO, MONO])));
    let expected = StreamConfig { channels: 1, sample_rate: 44_000 };
    let mut tx = match action {
        SetupAction::Build { index, config, producer } => {
            assert_eq!(index, 1);
            assert_eq!(config, expected);
            producer
        }
        _ => panic!("no stream to build"),
    };
    let (state, action) = stream_setup(state, SetupEvent::Built(true));
    assert!(matches!(action, SetupAction::Play));
    let (state, action) = stream_setup(state, SetupEvent::Played(true));
    assert!(matches!(state, SetupState::Finished));
    let (mut rx, config) = match action {
        SetupAction::Finish(Ok(stream)) => stream,
        _ => panic!("no stream"),
    };
    assert_eq!(config, expected);
    // The capacity is 8192, which is four chunks.
    push_data(&mut tx, &singles(0, 20_000));
    assert_eq!(poll(&mut Spectrogram::new(44_000), &mut rx), 4);
}

#[test]
fn each_answer_can_end_the_setup() {
    let (buffer_duration, sample_rate) = (Duration::from_millis(100), 44_000);
    let step = stream_setup(
        SetupState::New { buffer_duration: Duration::ZERO, sample_rate },
        SetupEvent::Begin,
    );
    assert_eq!(error_of(step), StreamError::BufferDurationIsZero);
    let step = stream_setup(
        SetupState::Enumerating { buffer_duration, sample_rate },
        SetupEvent::Enumerated(false),
    );
    assert_eq!(error_of(step), StreamError::EnumerateDevices);
    let step = stream_setup(
        SetupState::FindingDevice { buffer_duration, sample_rate },
        SetupEvent::DeviceFound(false),
    );
    assert_eq!(error_of(step), StreamError::NoInputDevice);
    let querying = || SetupState::Querying { buffer_duration, sample_rate };
    let step = stream_setup(querying(), SetupEvent::Queried(None));
    assert_eq!(error_of(step), StreamError::QueryConfigs);
    let step = stream_setup(querying(), SetupEvent::Queried(Some(vec![STEREO, SLOW])));
    assert_eq!(error_of(step), StreamError::NoSupportedConfig);
    let (state, _) = stream_setup(querying(), SetupEvent::Queried(Some(vec![MONO])));
    assert_eq!(error_of(stream_setup(state, SetupEvent::Built(false))), StreamError::BuildStream);
    let (state, _) = stream_setup(querying(), SetupEvent::Queried(Some(vec![MONO])));
    let (state, _) = stream_setup(state, SetupEvent::Built(true));
    assert_eq!(error_of(stream_setup(state, SetupEvent::Played(false))), StreamError::PlayStream);
}

#[test]
fn setup_is_tried_only_where_it_can_go_on() {
    let every = ConfigRange { channels: 1, min_sample_rate: 0, max_sample_rate: u32::MAX };
    let querying =
        |sample_rate| SetupState::Querying { buffer_duration: Duration::from_secs(1), sample_rate };
    assert!(try_stream_setup(querying(0), SetupEvent::Queried(Some(vec![every]))).is_none());
    assert!(try_stream_setup(querying(0), SetupEvent::Queried(Some(vec![MONO]))).is_some());
    assert!(try_stream_setup(querying(0), SetupEvent::Queried(None)).is_some());
    assert!(try_stream_setup(querying(16), SetupEvent::Queried(Some(vec![every]))).is_some());
    assert!(try_stream_setup(querying(16), SetupEvent::Begin).is_none());
    assert!(try_stream_setup(SetupState::Finished, SetupEvent::Begin).is_none());
    assert!(can_make_buffer(44_000, Duration::from_millis(100)));
    assert!(!can_make_buffer(0, Duration::from_millis(100)));
    assert!(!can_make_buffer(u32::MAX, Duration::from_secs(10)));
}

#[test]
fn stream_errors_have_texts() {
    let texts = [
        (StreamError::BufferDurationIsZero, "`buffer_duration` cannot be zero"),
        (StreamError::EnumerateDevices, "failed to enumerate input devices"),
        (StreamError::NoInputDevice, "no input device available"),
        (StreamError::QueryConfigs, "error while querying configs"),
        (StreamError::NoSupportedConfig, "no supported config?!"),
        (StreamError::BuildStream, "failed to create input stream"),
        (StreamError::PlayStream, "failed to play stream"),
    ];
    for (error, text) in texts {
        assert_eq!(error.message(), text);
        let created = error == StreamError::PlayStream;
        assert_eq!(error.context(), if created { None } else { Some("failed to create stream") });
    }
}

#[test]
fn handles_know_their_sample_rate() {
    let handle = StreamHandle::new("guard", StreamConfig { channels: 1, sample_rate: 44_000 });
    assert_eq!(handle.sample_rate(), 44_000);
    assert_eq!(handle.clone().sample_rate(), 44_000);
}

#[test]
fn supervisor_answers_a_ping() {
    let (state, action) = supervisor::<(), StreamError>(
        SupervisorState::Receiving,
        SupervisorEvent::Received(Request::Ping),
    );
    assert_eq!(state, SupervisorState::Receiving);
    match action {
        SupervisorAction::Reply(response) => {
            assert!(matches!(response, Response::Pong));
            assert_eq!(ping_outcome(send_outcome(true, Some(response))), Ok(()));
        }
        _ => panic!("no reply"),
    }
}

#[test]
fn supervisor_starts_a_stream() {
    let request = Request::StartStream {
        buffer_duration: Duration::from_millis(100),
        sample_rate: 44_000,
    };
    let (state, action) =
        supervisor::<u8, StreamError>(SupervisorState::Receiving, SupervisorEvent::Received(request));
    assert_eq!(state, SupervisorState::Starting);
    match action {
        SupervisorAction::Start { buffer_duration, sample_rate } => {
            assert_eq!(buffer_duration, Duration::from_millis(100));
            assert_eq!(sample_rate, 44_000);
        }
        _ => panic!("no stream to start"),
    }
    let (_tx, rx) = ends(Duration::from_millis(100), 44_000);
    let handle = StreamHandle::new(3u8, StreamConfig { channels: 1, sample_rate: 44_000 });
    let (state, action) = supervisor::<u8, StreamError>(state, SupervisorEvent::Started(Ok((handle, rx))));
    assert_eq!(state, SupervisorState::Receiving);
    match action {
        SupervisorAction::Reply(response) => match create_stream_outcome(Ok(response)) {
            Ok((handle, _)) => assert_eq!(handle.sample_rate(), 44_000),
            Err(_) => panic!("no stream"),
        },
        _ => panic!("no reply"),
    }
}

#[test]
fn supervisor_reports_a_stream_that_failed() {
    let failed = SupervisorEvent::Started(Err(StreamError::NoInputDevice));
    let (state, action) = supervisor::<u8, StreamError>(SupervisorState::Starting, failed);
    assert_eq!(state, SupervisorState::Receiving);
    match action {
        SupervisorAction::Reply(response) => assert!(matches!(
            create_stream_outcome(Ok(response)),
            Err(CreateStreamError::Stream(StreamError::NoInputDevice))
        )),
        _ => panic!("no reply"),
    }
}

#[test]
fn a_failed_stream_is_answered_and_the_worker_goes_on() {
    let failures = [
        (Ok(Err((StreamError::NoInputDevice, 1))), "failed to create stream"),
        (Ok(Err((StreamError::BuildStream, 2))), "failed to create stream"),
        (Ok(Err((StreamError::PlayStream, 3))), "failed to play stream"),
        (Err(4), "task panicked"),
    ];
    for (i, (finished, text)) in failures.into_iter().enumerate() {
        let result = start_outcome::<(StreamHandle<u8>, Consumer), usize>(finished);
        let (state, action) = supervisor(SupervisorState::Starting, SupervisorEvent::Started(result));
        let SupervisorAction::Reply(response) = action else { panic!("no reply") };
        match create_stream_outcome(Ok(response)) {
            Err(CreateStreamError::Stream(failure)) => {
                assert_eq!(failure.error.message(), text);
                assert_eq!(failure.cause, i + 1);
            }
            _ => panic!("no failure"),
        }
        let ping = SupervisorEvent::<u8, StartFailure<usize>>::Received(Request::Ping);
        let (state, action) = supervisor(state, ping);
        assert_eq!(state, SupervisorState::Receiving);
        assert!(matches!(action, SupervisorAction::Reply(Response::Pong)));
    }
    assert!(matches!(start_outcome::<u8, u8>(Ok(Ok(7))), Ok(7)));
    assert_eq!(StartError::Panicked.message(), "task panicked");
    assert_eq!(CreateStreamError::Stream(1u8).message(), None);
}

#[test]
fn supervisor_stops() {
    for (state, event) in [
        (SupervisorState::Receiving, SupervisorEvent::<u8, u8>::Cancelled),
        (SupervisorState::Starting, SupervisorEvent::Cancelled),
        (SupervisorState::Receiving, SupervisorEvent::Disconnected),
    ] {
        let (state, action) = supervisor(state, event);
        assert_eq!(state, SupervisorState::Stopped);
        assert!(matches!(action, SupervisorAction::Stop));
    }
}

#[test]
fn a_killed_worker_is_an_rpc_error() {
    assert_eq!(send_outcome::<u8, u8>(false, None).err(), Some(RpcError));
    assert_eq!(send_outcome::<u8, u8>(true, None).err(), Some(RpcError));
    assert_eq!(send_outcome::<u8, u8>(false, Some(Response::Pong)).err(), Some(RpcError));
    let ping = ping_outcome::<u8, u8>(Err(RpcError)).unwrap_err();
    assert_eq!(ping, PingError { source: RpcError });
    assert_eq!(ping.message(), "failed to send ping command");
    match create_stream_outcome::<u8, u8>(Err(RpcError)) {
        Err(error) => {
            assert_eq!(error.message(), Some("failed to send create_stream command"));
            assert!(matches!(error, CreateStreamError::Rpc(RpcError)));
        }
        Ok(_) => panic!("a stream"),
    }
    assert_eq!(RpcError.message(), "worker is killed");
}

#[test]
fn tasks_are_joined() {
    assert!(join::<u8>(TaskOutcome::Returned(Ok(()))).is_ok());
    let failed = join(TaskOutcome::Returned(Err(7))).unwrap_err();
    assert!(matches!(failed, WorkerError::Failed(7)));
    let panicked = join::<u8>(TaskOutcome::Panicked).unwrap_err();
    assert!(matches!(panicked, WorkerError::Panicked));
    assert_eq!(failed.message(Task::Analysis), "analysis task returned error");
    assert_eq!(panicked.message(Task::Analysis), "analysis task panicked");
    assert_eq!(failed.message(Task::Supervisor), "supervisor task returned error");
    assert_eq!(panicked.message(Task::Supervisor), "supervisor task panicked");
}

#[test]
fn session_goes_through_its_steps() {
    assert_eq!(buffer_duration(), Duration::from_millis(100));
    assert_eq!(listen_duration(), Duration::from_millis(1000));
    assert_eq!(MIN_SAMPLE_RATE, 44_000);
    let steps = [
        (SessionEvent::AudioSpawned(true), SessionAction::CreateStream),
        (SessionEvent::StreamCreated(true), SessionAction::Listen),
        (SessionEvent::Listened, SessionAction::JoinAnalysis),
        (SessionEvent::AnalysisJoined(Some(true)), SessionAction::AwaitCancel),
        (SessionEvent::Cancelled, SessionAction::JoinAudio),
        (SessionEvent::AudioJoined(true), SessionAction::Finish(Ok(()))),
    ];
    let mut state = SessionState::SpawningAudio;
    for (event, expected) in steps {
        let (next, action) = session(state, event);
        assert_eq!(action, expected);
        state = next;
    }
    assert_eq!(state, SessionState::Finished);
}

#[test]
fn session_ends_at_the_first_failure() {
    let failures = [
        (
            SessionState::SpawningAudio,
            SessionEvent::AudioSpawned(false),
            SessionError::SpawnAudio,
            Some("failed to spawn audio worker"),
        ),
        (
            SessionState::CreatingStream,
            SessionEvent::StreamCreated(false),
            SessionError::CreateStream,
            Some("failed to create stream"),
        ),
        (
            SessionState::JoiningAnalysis,
            SessionEvent::AnalysisJoined(Some(false)),
            SessionError::Analysis,
            None,
        ),
        (
            SessionState::JoiningAudio,
            SessionEvent::AudioJoined(false),
            SessionError::Audio,
            Some("error in audio worker"),
        ),
    ];
    for (state, event, error, message) in failures {
        let (next, action) = session(state, event);
        assert_eq!(next, SessionState::Finished);
        assert_eq!(action, SessionAction::Finish(Err(error)));
        assert_eq!(error.message(), message);
    }
    let (next, action) = session(SessionState::JoiningAnalysis, SessionEvent::AnalysisJoined(None));
    assert_eq!(next, SessionState::AwaitingCancel);
    assert_eq!(action, SessionAction::AwaitCancel);
}

#[test]
fn texture_is_loaded_once() {
    let mut texture = TextureState::new();
    let first = texture.ui(true);
    assert!(first.load && first.set);
    for received in [false, true, true] {
        let frame = texture.ui(received);
        assert!(!frame.load);
        assert_eq!(frame.set, received);
    }
}
