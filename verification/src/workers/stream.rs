//! Setting up an audio stream.
//!
//! The setup asks the audio host for one thing after another. It is a state machine: each answer
//! leads to the next question, to the finished stream, or to an error.

use std::time::Duration;

use vstd::arithmetic::power2::pow2;
use vstd::prelude::*;

use crate::time::{duration_micros, duration_nanos};
use crate::workers::capacity::{
    buffer_capacity, capacity_in_range, is_capacity_exponent, law_capacity_exponent_unique,
    law_capacity_is_the_least_that_lasts, law_durations_that_can_be_buffered,
    law_samples_are_counted_whole, samples_within, SampleRate,
};
use crate::workers::ring::{
    are_new_ends, consumer_capacity, consumer_items, consumer_seen, consumer_stream, consumer_taken,
    producer_capacity, producer_room, producer_sent, producer_stream, ring, Consumer, Producer,
};

verus! {

/// The number of channels and the sample rate that a stream runs with.
#[derive(Debug, Clone, Copy, PartialEq, Eq, Structural)]
pub struct StreamConfig {
    pub channels: u16,
    pub sample_rate: SampleRate,
}

/// The configurations that an input device supports with one number of channels.
#[derive(Debug, Clone, Copy, PartialEq, Eq, Structural)]
pub struct ConfigRange {
    pub channels: u16,
    pub min_sample_rate: SampleRate,
    pub max_sample_rate: SampleRate,
}

impl ConfigRange {
    /// Whether a mono stream can run at `sample_rate`.
    pub open spec fn supports(self, sample_rate: SampleRate) -> bool {
        self.channels == 1 && self.min_sample_rate <= sample_rate <= self.max_sample_rate
    }
}

/// A stream is killed when all of its `StreamHandle`s are dropped.
///
/// `G` is what keeps the stream alive.
#[derive(Debug)]
pub struct StreamHandle<G> {
    guard: G,
    config: StreamConfig,
}

impl<G: Clone> Clone for StreamHandle<G> {
    fn clone(&self) -> (res: Self)
        ensures
            res.config() == self.config(),
            cloned::<G>(self.guard(), res.guard()),
    {
        StreamHandle { guard: self.guard.clone(), config: self.config }
    }
}

impl<G> StreamHandle<G> {
    /// What keeps the stream alive.
    pub closed spec fn guard(&self) -> G {
        self.guard
    }

    /// What the stream runs with.
    pub closed spec fn config(&self) -> StreamConfig {
        self.config
    }

    /// A handle for a stream that runs with `config`.
    pub fn new(guard: G, config: StreamConfig) -> (handle: Self)
        ensures
            handle.guard() == guard,
            handle.config() == config,
    {
        StreamHandle { guard, config }
    }

    /// The sample rate of the stream.
    pub fn sample_rate(&self) -> (sample_rate: SampleRate)
        ensures
            sample_rate == self.config().sample_rate,
    {
        self.config.sample_rate
    }
}

/// Why a stream could not be set up.
#[derive(Debug, Clone, Copy, PartialEq, Eq, Structural)]
pub enum StreamError {
    BufferDurationIsZero,
    EnumerateDevices,
    NoInputDevice,
    QueryConfigs,
    NoSupportedConfig,
    BuildStream,
    PlayStream,
}

impl StreamError {
    /// The text of the error.
    pub open spec fn text(self) -> Seq<char> {
        match self {
            StreamError::BufferDurationIsZero => "`buffer_duration` cannot be zero"@,
            StreamError::EnumerateDevices => "failed to enumerate input devices"@,
            StreamError::NoInputDevice => "no input device available"@,
            StreamError::QueryConfigs => "error while querying configs"@,
            StreamError::NoSupportedConfig => "no supported config?!"@,
            StreamError::BuildStream => "failed to create input stream"@,
            StreamError::PlayStream => "failed to play stream"@,
        }
    }

    /// The text of the error.
    pub fn message(self) -> (message: &'static str)
        ensures
            message@ == self.text(),
            self is BufferDurationIsZero ==> message@ == "`buffer_duration` cannot be zero"@,
            self is EnumerateDevices ==> message@ == "failed to enumerate input devices"@,
            self is NoInputDevice ==> message@ == "no input device available"@,
            self is QueryConfigs ==> message@ == "error while querying configs"@,
            self is NoSupportedConfig ==> message@ == "no supported config?!"@,
            self is BuildStream ==> message@ == "failed to create input stream"@,
            self is PlayStream ==> message@ == "failed to play stream"@,
    {
        match self {
            StreamError::BufferDurationIsZero => "`buffer_duration` cannot be zero",
            StreamError::EnumerateDevices => "failed to enumerate input devices",
            StreamError::NoInputDevice => "no input device available",
            StreamError::QueryConfigs => "error while querying configs",
            StreamError::NoSupportedConfig => "no supported config?!",
            StreamError::BuildStream => "failed to create input stream",
            StreamError::PlayStream => "failed to play stream",
        }
    }

    /// What is put in front of the error: a stream that only could not be started was created.
    pub fn context(self) -> (context: Option<&'static str>)
        ensures
            match context {
                Some(c) => !(self is PlayStream) && c@ == "failed to create stream"@,
                None => self is PlayStream,
            },
    {
        match self {
            StreamError::PlayStream => None,
            _ => Some("failed to create stream"),
        }
    }
}

/// Whether `index` is the first of the configurations that support `sample_rate`.
pub open spec fn is_first_supported(
    configs: Seq<ConfigRange>,
    sample_rate: SampleRate,
    index: int,
) -> bool {
    &&& 0 <= index < configs.len()
    &&& configs[index].supports(sample_rate)
    &&& forall|i: int| 0 <= i < index ==> !(#[trigger] configs[i]).supports(sample_rate)
}

/// Whether none of the configurations supports `sample_rate`.
pub open spec fn is_unsupported(configs: Seq<ConfigRange>, sample_rate: SampleRate) -> bool {
    forall|i: int| 0 <= i < configs.len() ==> !(#[trigger] configs[i]).supports(sample_rate)
}

/// The index of the first configuration for a mono stream of `sample_rate`.
pub fn select_config(configs: &[ConfigRange], sample_rate: SampleRate) -> (index: Option<usize>)
    ensures
        match index {
            Some(i) => is_first_supported(configs@, sample_rate, i as int),
            None => is_unsupported(configs@, sample_rate),
        },
        forall|i: int|
            0 <= i < configs@.len() && (#[trigger] configs@[i]).channels == 1
                && configs@[i].min_sample_rate <= sample_rate
                && sample_rate <= configs@[i].max_sample_rate ==> index is Some && index->0 <= i,
        index matches Some(k) ==> {
            &&& k < configs@.len()
            &&& configs@[k as int].channels == 1
            &&& configs@[k as int].min_sample_rate <= sample_rate
            &&& sample_rate <= configs@[k as int].max_sample_rate
        },
{
    for i in 0..configs.len()
        invariant
            is_unsupported(configs@.take(i as int), sample_rate),
            forall|j: int| 0 <= j < i ==> configs@.take(i as int)[j] == #[trigger] configs@[j],
    {
        let config = configs[i];
        if config.channels == 1 && config.max_sample_rate >= sample_rate && config.min_sample_rate
            <= sample_rate {
            return Some(i);
        }
    }
    assert(configs@.take(configs@.len() as int) == configs@);
    None
}

/// Whether a buffer for `buffer_duration` can be made: it has something to hold, it is no larger
/// than the largest buffer, and there are addresses for all of it.
pub open spec fn buffer_fits(sample_rate: SampleRate, buffer_duration: Duration) -> bool {
    &&& capacity_in_range(sample_rate, buffer_duration)
    &&& forall|e: nat| #[trigger]
        is_capacity_exponent(e, samples_within(sample_rate, duration_micros(buffer_duration))) ==> 4
            * pow2(e) <= isize::MAX
}

/// How far the setup of a stream has come.
pub enum SetupState {
    /// Nothing was asked for yet.
    New { buffer_duration: Duration, sample_rate: SampleRate },
    /// The input devices are being enumerated.
    Enumerating { buffer_duration: Duration, sample_rate: SampleRate },
    /// The default input device is being looked up.
    FindingDevice { buffer_duration: Duration, sample_rate: SampleRate },
    /// The configurations of the input device are being queried.
    Querying { buffer_duration: Duration, sample_rate: SampleRate },
    /// The stream is being built.
    Building { consumer: Consumer, config: StreamConfig },
    /// The stream is being started.
    Starting { consumer: Consumer, config: StreamConfig },
    /// The setup is over.
    Finished,
}

/// What the setup of a stream is told.
pub enum SetupEvent {
    /// The setup shall begin.
    Begin,
    /// Whether the input devices could be enumerated.
    Enumerated(bool),
    /// Whether there is a default input device.
    DeviceFound(bool),
    /// The configurations of the input device, if they could be queried.
    Queried(Option<Vec<ConfigRange>>),
    /// Whether the stream could be built.
    Built(bool),
    /// Whether the stream could be started.
    Played(bool),
}

/// What the setup of a stream asks for.
pub enum SetupAction {
    /// Enumerate the input devices.
    Enumerate,
    /// Look up the default input device.
    FindDevice,
    /// Query the configurations of the input device.
    Query,
    /// Build a stream with the configuration at `index`, at the sample rate of `config`, that gives
    /// its samples to `producer`.
    Build { index: usize, config: StreamConfig, producer: Producer },
    /// Start the stream.
    Play,
    /// Return this.
    Finish(Result<(Consumer, StreamConfig), StreamError>),
}

impl SetupState {
    /// Whether `event` is what this state waits for.
    pub open spec fn awaits(self, event: SetupEvent) -> bool {
        match self {
            SetupState::New { .. } => event is Begin,
            SetupState::Enumerating { .. } => event is Enumerated,
            SetupState::FindingDevice { .. } => event is DeviceFound,
            SetupState::Querying { .. } => event is Queried,
            SetupState::Building { .. } => event is Built,
            SetupState::Starting { .. } => event is Played,
            SetupState::Finished => false,
        }
    }

    /// Whether a buffer can be made once a configuration was found.
    pub open spec fn can_buffer(self, event: SetupEvent) -> bool {
        self matches SetupState::Querying { buffer_duration, sample_rate } ==> (event
            matches SetupEvent::Queried(Some(configs)) ==> (is_unsupported(configs@, sample_rate)
            || buffer_fits(sample_rate, buffer_duration)))
    }
}

/// Whether the two are the ends of a new ring buffer for `buffer_duration`.
pub open spec fn are_ends_for(
    producer: Producer,
    consumer: Consumer,
    sample_rate: SampleRate,
    buffer_duration: Duration,
) -> bool {
    &&& are_new_ends(producer, consumer, producer_capacity(producer))
    &&& exists|e: nat| #[trigger]
        pow2(e) == producer_capacity(producer) && is_capacity_exponent(
            e,
            samples_within(sample_rate, duration_micros(buffer_duration)),
        )
}

/// Whether `action` gives up with `error`.
pub open spec fn fails_with(state: SetupState, action: SetupAction, error: StreamError) -> bool {
    state is Finished && action == SetupAction::Finish(Err(error))
}

/// What the setup of a stream does when it is told `event`.
pub open spec fn is_setup_step(
    state: SetupState,
    event: SetupEvent,
    next: SetupState,
    action: SetupAction,
) -> bool {
    match (state, event) {
        (SetupState::New { buffer_duration, sample_rate }, SetupEvent::Begin) => if duration_nanos(
            buffer_duration,
        ) == 0 {
            fails_with(next, action, StreamError::BufferDurationIsZero)
        } else {
            next == (SetupState::Enumerating { buffer_duration, sample_rate }) && action is Enumerate
        },
        (
            SetupState::Enumerating { buffer_duration, sample_rate },
            SetupEvent::Enumerated(ok),
        ) => if ok {
            next == (SetupState::FindingDevice { buffer_duration, sample_rate })
                && action is FindDevice
        } else {
            fails_with(next, action, StreamError::EnumerateDevices)
        },
        (
            SetupState::FindingDevice { buffer_duration, sample_rate },
            SetupEvent::DeviceFound(found),
        ) => if found {
            next == (SetupState::Querying { buffer_duration, sample_rate }) && action is Query
        } else {
            fails_with(next, action, StreamError::NoInputDevice)
        },
        (SetupState::Querying { .. }, SetupEvent::Queried(None)) => fails_with(
            next,
            action,
            StreamError::QueryConfigs,
        ),
        (
            SetupState::Querying { buffer_duration, sample_rate },
            SetupEvent::Queried(Some(configs)),
        ) => if is_unsupported(configs@, sample_rate) {
            fails_with(next, action, StreamError::NoSupportedConfig)
        } else {
            match (next, action) {
                (
                    SetupState::Building { consumer, config: kept },
                    SetupAction::Build { index, config, producer },
                ) => {
                    &&& is_first_supported(configs@, sample_rate, index as int)
                    &&& config == (StreamConfig { channels: 1, sample_rate })
                    &&& kept == config
                    &&& are_ends_for(producer, consumer, sample_rate, buffer_duration)
                },
                _ => false,
            }
        },
        (SetupState::Building { consumer, config }, SetupEvent::Built(ok)) => if ok {
            next == (SetupState::Starting { consumer, config }) && action is Play
        } else {
            fails_with(next, action, StreamError::BuildStream)
        },
        (SetupState::Starting { consumer, config }, SetupEvent::Played(ok)) => if ok {
            next is Finished && action == SetupAction::Finish(Ok((consumer, config)))
        } else {
            fails_with(next, action, StreamError::PlayStream)
        },
        _ => false,
    }
}

/// Sets up a stream, one step at a time.
pub fn stream_setup(state: SetupState, event: SetupEvent) -> (step: (SetupState, SetupAction))
    requires
        state.awaits(event),
        state.can_buffer(event),
    ensures
        is_setup_step(state, event, step.0, step.1),
{
    match (state, event) {
        (SetupState::New { buffer_duration, sample_rate }, SetupEvent::Begin) => {
            if buffer_duration.is_zero() {
                fail(StreamError::BufferDurationIsZero)
            } else {
                (
                    SetupState::Enumerating { buffer_duration, sample_rate },
                    SetupAction::Enumerate,
                )
            }
        },
        (
            SetupState::Enumerating { buffer_duration, sample_rate },
            SetupEvent::Enumerated(ok),
        ) => {
            if ok {
                (
                    SetupState::FindingDevice { buffer_duration, sample_rate },
                    SetupAction::FindDevice,
                )
            } else {
                fail(StreamError::EnumerateDevices)
            }
        },
        (
            SetupState::FindingDevice { buffer_duration, sample_rate },
            SetupEvent::DeviceFound(found),
        ) => {
            if found {
                (SetupState::Querying { buffer_duration, sample_rate }, SetupAction::Query)
            } else {
                fail(StreamError::NoInputDevice)
            }
        },
        (
            SetupState::Querying { buffer_duration, sample_rate },
            SetupEvent::Queried(configs),
        ) => {
            match configs {
                None => fail(StreamError::QueryConfigs),
                Some(configs) => plan_stream(configs.as_slice(), sample_rate, buffer_duration),
            }
        },
        (SetupState::Building { consumer, config }, SetupEvent::Built(ok)) => {
            if ok {
                (SetupState::Starting { consumer, config }, SetupAction::Play)
            } else {
                fail(StreamError::BuildStream)
            }
        },
        (SetupState::Starting { consumer, config }, SetupEvent::Played(ok)) => {
            if ok {
                (SetupState::Finished, SetupAction::Finish(Ok((consumer, config))))
            } else {
                fail(StreamError::PlayStream)
            }
        },
        _ => unreached(),
    }
}

/// Whether a buffer for `buffer_duration` can be made.
pub fn can_make_buffer(sample_rate: SampleRate, buffer_duration: Duration) -> (fits: bool)
    ensures
        fits == buffer_fits(sample_rate, buffer_duration),
{
    match buffer_capacity(sample_rate, buffer_duration) {
        None => false,
        Some(capacity) => {
            proof {
                let samples = samples_within(sample_rate, duration_micros(buffer_duration));
                let e = choose|e: nat| #[trigger]
                    pow2(e) == capacity && is_capacity_exponent(e, samples);
                assert forall|other: nat| #[trigger] is_capacity_exponent(other, samples) implies other
                    == e by {
                    law_capacity_exponent_unique(other, e, samples);
                }
            }
            capacity <= (isize::MAX / 4) as usize
        },
    }
}

/// Sets up a stream, one step at a time. Returns nothing where `event` is not what `state` waits
/// for, or where a configuration was found but its buffer cannot be made.
pub fn try_stream_setup(state: SetupState, event: SetupEvent) -> (step: Option<
    (SetupState, SetupAction),
>)
    ensures
        step is Some <==> state.awaits(event) && state.can_buffer(event),
        step matches Some(s) ==> is_setup_step(state, event, s.0, s.1),
{
    let ready = match (&state, &event) {
        (SetupState::New { .. }, SetupEvent::Begin) => true,
        (SetupState::Enumerating { .. }, SetupEvent::Enumerated(_)) => true,
        (SetupState::FindingDevice { .. }, SetupEvent::DeviceFound(_)) => true,
        (SetupState::Querying { .. }, SetupEvent::Queried(None)) => true,
        (
            SetupState::Querying { buffer_duration, sample_rate },
            SetupEvent::Queried(Some(configs)),
        ) => match select_config(configs.as_slice(), *sample_rate) {
            None => true,
            Some(_) => can_make_buffer(*sample_rate, *buffer_duration),
        },
        (SetupState::Building { .. }, SetupEvent::Built(_)) => true,
        (SetupState::Starting { .. }, SetupEvent::Played(_)) => true,
        _ => false,
    };
    if ready {
        Some(stream_setup(state, event))
    } else {
        None
    }
}

/// Gives up.
fn fail(error: StreamError) -> (step: (SetupState, SetupAction))
    ensures
        fails_with(step.0, step.1, error),
{
    (SetupState::Finished, SetupAction::Finish(Err(error)))
}

/// Picks a configuration, and makes the ring buffer for it.
fn plan_stream(configs: &[ConfigRange], sample_rate: SampleRate, buffer_duration: Duration) -> (step:
    (SetupState, SetupAction))
    requires
        is_unsupported(configs@, sample_rate) || buffer_fits(sample_rate, buffer_duration),
    ensures
        is_unsupported(configs@, sample_rate) ==> fails_with(
            step.0,
            step.1,
            StreamError::NoSupportedConfig,
        ),
        !is_unsupported(configs@, sample_rate) ==> match step {
            (
                SetupState::Building { consumer, config: kept },
                SetupAction::Build { index, config, producer },
            ) => {
                &&& is_first_supported(configs@, sample_rate, index as int)
                &&& config == (StreamConfig { channels: 1, sample_rate })
                &&& kept == config
                &&& are_ends_for(producer, consumer, sample_rate, buffer_duration)
            },
            _ => false,
        },
{
    match select_config(configs, sample_rate) {
        None => fail(StreamError::NoSupportedConfig),
        Some(index) => {
            let config = StreamConfig { channels: configs[index].channels, sample_rate };
            match buffer_capacity(sample_rate, buffer_duration) {
                None => unreached(),
                Some(capacity) => {
                    proof {
                        let samples = samples_within(sample_rate, duration_micros(buffer_duration));
                        let e = choose|e: nat| #[trigger]
                            pow2(e) == capacity && is_capacity_exponent(e, samples);
                        vstd::arithmetic::power2::lemma_pow2_pos(e);
                    }
                    let (producer, consumer) = ring(capacity);
                    (
                        SetupState::Building { consumer, config },
                        SetupAction::Build { index, config, producer },
                    )
                },
            }
        },
    }
}

/// Whether this is how far a setup for `buffer_duration` at `sample_rate` can have come.
pub open spec fn is_setup_for(
    state: SetupState,
    buffer_duration: Duration,
    sample_rate: SampleRate,
) -> bool {
    match state {
        SetupState::New { buffer_duration: d, sample_rate: r } => d == buffer_duration && r
            == sample_rate,
        SetupState::Enumerating { buffer_duration: d, sample_rate: r }
        | SetupState::FindingDevice { buffer_duration: d, sample_rate: r }
        | SetupState::Querying { buffer_duration: d, sample_rate: r } => d == buffer_duration && r
            == sample_rate && duration_nanos(d) > 0,
        SetupState::Building { consumer, config } | SetupState::Starting { consumer, config } =>
        is_stream_for(consumer, config, buffer_duration, sample_rate),
        SetupState::Finished => true,
    }
}

/// Whether a stream is the one that was asked for: mono, at the right sample rate, and with a ring
/// buffer that is still empty, and of the smallest power of two that holds all that arrives in
/// `buffer_duration`.
pub open spec fn is_stream_for(
    consumer: Consumer,
    config: StreamConfig,
    buffer_duration: Duration,
    sample_rate: SampleRate,
) -> bool {
    &&& duration_nanos(buffer_duration) > 0
    &&& config == (StreamConfig { channels: 1, sample_rate })
    &&& consumer_seen(consumer) == Seq::<u32>::empty()
    &&& exists|e: nat| #[trigger]
        pow2(e) == consumer_capacity(consumer) && is_capacity_exponent(
            e,
            samples_within(sample_rate, duration_micros(buffer_duration)),
        )
}

/// However the audio host answers, the setup stays on what was asked for, and the stream that it
/// finishes with, if it does, is the one that was asked for.
pub proof fn law_setup_gives_what_was_asked_for(
    buffer_duration: Duration,
    sample_rate: SampleRate,
    state: SetupState,
    event: SetupEvent,
    next: SetupState,
    action: SetupAction,
)
    requires
        is_setup_for(state, buffer_duration, sample_rate),
        is_setup_step(state, event, next, action),
    ensures
        is_setup_for(next, buffer_duration, sample_rate),
        next is Finished <==> action is Finish,
        action matches SetupAction::Finish(Ok((consumer, config))) ==> is_stream_for(
            consumer,
            config,
            buffer_duration,
            sample_rate,
        ),
{
}

/// The number of steps that a setup still takes at most.
pub open spec fn setup_steps_left(state: SetupState) -> nat {
    match state {
        SetupState::New { .. } => 6,
        SetupState::Enumerating { .. } => 5,
        SetupState::FindingDevice { .. } => 4,
        SetupState::Querying { .. } => 3,
        SetupState::Building { .. } => 2,
        SetupState::Starting { .. } => 1,
        SetupState::Finished => 0,
    }
}

/// A setup comes to an end.
pub proof fn law_setup_ends(
    state: SetupState,
    event: SetupEvent,
    next: SetupState,
    action: SetupAction,
)
    requires
        is_setup_step(state, event, next, action),
    ensures
        setup_steps_left(next) < setup_steps_left(state),
{
}


/// The configuration that is selected is the first that is mono and has the sample rate between its
/// smallest and its largest, these two among them. If there is one, one is selected.
pub proof fn law_first_fitting_config_is_selected(
    configs: Seq<ConfigRange>,
    sample_rate: SampleRate,
    index: int,
)
    ensures
        is_first_supported(configs, sample_rate, index) <==> {
            &&& 0 <= index < configs.len()
            &&& configs[index].channels == 1
            &&& configs[index].min_sample_rate <= sample_rate
            &&& sample_rate <= configs[index].max_sample_rate
            &&& forall|i: int|
                0 <= i < index ==> (#[trigger] configs[i]).channels != 1
                    || configs[i].min_sample_rate > sample_rate || configs[i].max_sample_rate
                    < sample_rate
        },
        is_unsupported(configs, sample_rate) <==> forall|i: int|
            0 <= i < configs.len() ==> (#[trigger] configs[i]).channels != 1
                || configs[i].min_sample_rate > sample_rate || configs[i].max_sample_rate
                < sample_rate,
{
}

/// A buffer can be made for just those durations in which something arrives, and no more than the
/// largest buffer holds, as long as the least power of two that is enough can be addressed at four
/// bytes a sample.
pub proof fn law_buffers_that_can_be_made(
    sample_rate: SampleRate,
    buffer_duration: Duration,
    exponent: nat,
)
    requires
        (duration_nanos(buffer_duration) / 1_000) * sample_rate <= pow2(exponent) * 1_000_000,
        exponent > 0 ==> pow2((exponent - 1) as nat) * 1_000_000 < (duration_nanos(buffer_duration)
            / 1_000) * sample_rate,
    ensures
        buffer_fits(sample_rate, buffer_duration) <==> 0 < (duration_nanos(buffer_duration) / 1_000)
            * sample_rate <= 0x8000_0000 * 1_000_000 && 4 * pow2(exponent) <= isize::MAX,
{
    let samples = samples_within(sample_rate, duration_micros(buffer_duration));
    law_samples_are_counted_whole(sample_rate, buffer_duration);
    law_durations_that_can_be_buffered(sample_rate, buffer_duration);
    assert(is_capacity_exponent(exponent, samples));
    assert forall|e: nat| #[trigger] is_capacity_exponent(e, samples) implies e == exponent by {
        law_capacity_exponent_unique(e, exponent, samples);
    }
}

/// The setup goes on with the answer to what it asked for, whatever the answer is. Only a buffer
/// that cannot be made, for a configuration that was found, keeps it from that.
pub proof fn law_setup_takes_every_answer(
    buffer_duration: Duration,
    sample_rate: SampleRate,
    consumer: Consumer,
    config: StreamConfig,
    ok: bool,
    configs: Vec<ConfigRange>,
)
    ensures
        ({
            let new = SetupState::New { buffer_duration, sample_rate };
            let enumerating = SetupState::Enumerating { buffer_duration, sample_rate };
            let finding = SetupState::FindingDevice { buffer_duration, sample_rate };
            let querying = SetupState::Querying { buffer_duration, sample_rate };
            let building = SetupState::Building { consumer, config };
            let starting = SetupState::Starting { consumer, config };
            let enumerated = SetupEvent::Enumerated(ok);
            let found = SetupEvent::DeviceFound(ok);
            let queried = SetupEvent::Queried(Some(configs));
            let (built, played) = (SetupEvent::Built(ok), SetupEvent::Played(ok));
            &&& new.awaits(SetupEvent::Begin) && new.can_buffer(SetupEvent::Begin)
            &&& enumerating.awaits(enumerated) && enumerating.can_buffer(enumerated)
            &&& finding.awaits(found) && finding.can_buffer(found)
            &&& querying.awaits(SetupEvent::Queried(None))
            &&& querying.can_buffer(SetupEvent::Queried(None))
            &&& querying.awaits(queried)
            &&& querying.can_buffer(queried) <==> (buffer_fits(sample_rate, buffer_duration)
                || forall|i: int|
                0 <= i < configs@.len() ==> (#[trigger] configs@[i]).channels != 1
                    || configs@[i].min_sample_rate > sample_rate || configs@[i].max_sample_rate
                    < sample_rate)
            &&& building.awaits(built) && building.can_buffer(built)
            &&& starting.awaits(played) && starting.can_buffer(played)
        }),
{
    law_first_fitting_config_is_selected(configs@, sample_rate, 0);
}

/// The setup gives up just where the duration is zero, the audio host says no, or no configuration
/// is mono and covers the sample rate, each with its own error. It succeeds just where the stream
/// was started, with what it was built with.
pub proof fn law_setup_ends_as_the_host_answers(
    state: SetupState,
    event: SetupEvent,
    next: SetupState,
    action: SetupAction,
)
    requires
        is_setup_step(state, event, next, action),
    ensures
        action == SetupAction::Finish(Err(StreamError::BufferDurationIsZero)) <==> (state
            matches SetupState::New { buffer_duration, .. } && duration_nanos(buffer_duration)
            == 0),
        action == SetupAction::Finish(Err(StreamError::EnumerateDevices)) <==> (event
            matches SetupEvent::Enumerated(ok) && !ok),
        action == SetupAction::Finish(Err(StreamError::NoInputDevice)) <==> (event
            matches SetupEvent::DeviceFound(found) && !found),
        action == SetupAction::Finish(Err(StreamError::QueryConfigs)) <==> (event
            matches SetupEvent::Queried(configs) && configs is None),
        action == SetupAction::Finish(Err(StreamError::NoSupportedConfig)) <==> (state
            matches SetupState::Querying { sample_rate, .. } && event matches SetupEvent::Queried(
            Some(configs),
        ) && forall|i: int|
            0 <= i < configs@.len() ==> (#[trigger] configs@[i]).channels != 1
                || configs@[i].min_sample_rate > sample_rate || configs@[i].max_sample_rate
                < sample_rate),
        action == SetupAction::Finish(Err(StreamError::BuildStream)) <==> (event
            matches SetupEvent::Built(ok) && !ok),
        action == SetupAction::Finish(Err(StreamError::PlayStream)) <==> (event
            matches SetupEvent::Played(ok) && !ok),
        (action matches SetupAction::Finish(Ok(_))) <==> (event matches SetupEvent::Played(ok)
            && ok),
        state matches SetupState::Starting { consumer, config } ==> (event
            matches SetupEvent::Played(ok) ==> (ok ==> action == SetupAction::Finish(
            Ok((consumer, config)),
        ))),
        next is Finished <==> action is Finish,
{
    if let (SetupState::Querying { sample_rate, .. }, SetupEvent::Queried(Some(configs))) = (
        state,
        event,
    ) {
        law_first_fitting_config_is_selected(configs@, sample_rate, 0);
    }
}

/// While nothing is in its way, the setup enumerates, looks the device up, queries it, builds the
/// stream and starts it, in that order, for the duration and the sample rate that it began with.
pub proof fn law_setup_asks_in_order(
    state: SetupState,
    event: SetupEvent,
    next: SetupState,
    action: SetupAction,
)
    requires
        is_setup_step(state, event, next, action),
        !(action is Finish),
    ensures
        state is New <==> action is Enumerate,
        state is Enumerating <==> action is FindDevice,
        state is FindingDevice <==> action is Query,
        state is Querying <==> action is Build,
        state is Building <==> action is Play,
        state matches SetupState::New { buffer_duration, sample_rate } ==> next == (
        SetupState::Enumerating { buffer_duration, sample_rate }),
        state matches SetupState::Enumerating { buffer_duration, sample_rate } ==> next == (
        SetupState::FindingDevice { buffer_duration, sample_rate }),
        state matches SetupState::FindingDevice { buffer_duration, sample_rate } ==> next == (
        SetupState::Querying { buffer_duration, sample_rate }),
        state matches SetupState::Building { consumer, config } ==> next == (
        SetupState::Starting { consumer, config }),
        state is Querying ==> next is Building,
{
}

/// The stream is built with the first configuration that is mono and covers the sample rate that was
/// asked for, at that rate. Its samples go to one end of a ring buffer that is empty, and of the
/// least power of two that holds what arrives in the duration; the other end of the same ring buffer
/// is kept.
pub proof fn law_stream_is_built_as_asked_for(
    buffer_duration: Duration,
    sample_rate: SampleRate,
    configs: Vec<ConfigRange>,
    next: SetupState,
    index: usize,
    config: StreamConfig,
    producer: Producer,
)
    requires
        is_setup_step(
            SetupState::Querying { buffer_duration, sample_rate },
            SetupEvent::Queried(Some(configs)),
            next,
            SetupAction::Build { index, config, producer },
        ),
    ensures
        index < configs@.len(),
        configs@[index as int].channels == 1,
        configs@[index as int].min_sample_rate <= sample_rate,
        sample_rate <= configs@[index as int].max_sample_rate,
        forall|i: int|
            0 <= i < index ==> (#[trigger] configs@[i]).channels != 1 || configs@[i].min_sample_rate
                > sample_rate || configs@[i].max_sample_rate < sample_rate,
        config.channels == 1,
        config.sample_rate == sample_rate,
        next matches SetupState::Building { consumer, config: kept } && {
            &&& kept == config
            &&& producer_stream(producer) == consumer_stream(consumer)
            &&& producer_sent(producer).len() == 0
            &&& consumer_taken(consumer).len() == 0
            &&& consumer_items(consumer).len() == 0
            &&& producer_room(producer) == producer_capacity(producer)
            &&& consumer_capacity(consumer) == producer_capacity(producer)
            &&& exists|e: nat|
                {
                    &&& #[trigger] pow2(e) == producer_capacity(producer)
                    &&& (duration_nanos(buffer_duration) / 1_000) * sample_rate <= pow2(e)
                        * 1_000_000
                    &&& e > 0 ==> pow2((e - 1) as nat) * 1_000_000 < (duration_nanos(
                        buffer_duration,
                    ) / 1_000) * sample_rate
                }
        },
{
    law_first_fitting_config_is_selected(configs@, sample_rate, index as int);
    let samples = samples_within(sample_rate, duration_micros(buffer_duration));
    let e = choose|e: nat| #[trigger]
        pow2(e) == producer_capacity(producer) && is_capacity_exponent(e, samples);
    law_capacity_is_the_least_that_lasts(sample_rate, buffer_duration, e);
}

} // verus!
