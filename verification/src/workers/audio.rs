//! The audio worker: it answers requests for streams.

use std::time::Duration;

use vstd::arithmetic::power2::pow2;
use vstd::math::min;
use vstd::prelude::*;

use crate::time::duration_micros;
use crate::workers::capacity::{
    is_capacity_exponent, law_buffer_outlasts_duration, samples_within,
};
use crate::workers::ring::{
    is_same_producer, producer_capacity, producer_room, producer_sent, producer_stream,
};
use crate::workers::stream::are_ends_for;

pub use crate::workers::capacity::{compute_capacity_exponent, DurationWasZero, SampleRate};
pub use crate::workers::ring::{Consumer, Producer};
pub use crate::workers::stream::{stream_setup, StreamConfig, StreamError, StreamHandle};

verus! {

/// A single precision sample, by its bits.
pub type SampleFormat = u32;

/// What a delivery of `data` to the ring buffer does: it puts in as many of the samples, from the
/// first on, as there is room for, and drops the rest.
pub open spec fn is_pushed(before: Producer, data: Seq<SampleFormat>, after: Producer) -> bool {
    &&& is_same_producer(before, after)
    &&& producer_sent(after).is_prefix_of(producer_stream(after))
    &&& exists|n: int|
        {
            &&& 0 <= n <= data.len()
            &&& producer_sent(after) == producer_sent(before) + #[trigger] data.take(n)
            &&& n < data.len() ==> producer_room(after) == 0
            &&& producer_room(before) <= producer_room(after) + n <= producer_capacity(before)
        }
    &&& data.len() <= producer_room(before) ==> producer_sent(after) == producer_sent(before) + data
    &&& producer_room(after) + data.len() >= producer_room(before)
}

/// Gives the samples that the audio driver delivers to the ring buffer. What there is no room for
/// is dropped.
pub fn push_data(tx: &mut Producer, data: &[SampleFormat])
    ensures
        is_pushed(*old(tx), data@, *final(tx)),
{
    let n: usize = tx.push_slice(data);
    assert(data@.take(data@.len() as int) == data@);
    assert(producer_sent(*tx) == producer_sent(*old(tx)) + data@.take(n as int));
}

/// Whether the deliveries of `data`, one after the other, took an end of a ring buffer from the
/// first of `producers` to the last.
pub open spec fn are_pushed(producers: Seq<Producer>, data: Seq<Seq<SampleFormat>>) -> bool {
    &&& producers.len() == data.len() + 1
    &&& forall|i: int|
        0 <= i < data.len() ==> is_pushed(producers[i], #[trigger] data[i], producers[i + 1])
}

/// A consumer may stall for the duration of the buffer before data gets dropped: as long as the
/// driver has delivered no more than arrives in the whole microseconds of that duration, the buffer
/// has all of it, whether or not anything was taken off.
pub proof fn law_stalled_consumer_loses_nothing(
    sample_rate: SampleRate,
    buffer_duration: Duration,
    consumer: Consumer,
    producers: Seq<Producer>,
    data: Seq<Seq<SampleFormat>>,
)
    requires
        are_pushed(producers, data),
        are_ends_for(producers[0], consumer, sample_rate, buffer_duration),
        data.flatten().len() * 1_000_000 <= duration_micros(buffer_duration) * sample_rate,
    ensures
        producer_sent(producers.last()) == data.flatten(),
{
    let samples = samples_within(sample_rate, duration_micros(buffer_duration));
    let e = choose|e: nat| #[trigger]
        pow2(e) == producer_capacity(producers[0]) && is_capacity_exponent(e, samples);
    law_buffer_outlasts_duration(
        sample_rate,
        duration_micros(buffer_duration),
        e,
        data.flatten().len(),
    );
    law_nothing_is_lost_while_there_is_room(producers, data);
}

/// A delivery keeps what was put in before it, and adds as much as fits: the first of it, in order.
/// That is at least what there was seen to be room for, and at most a full buffer; if the buffer was
/// seen empty, it is exactly what a full buffer holds.
pub proof fn law_delivery_keeps_what_fits(
    before: Producer,
    data: Seq<SampleFormat>,
    after: Producer,
)
    requires
        is_pushed(before, data, after),
    ensures
        exists|n: int|
            {
                &&& producer_sent(after) == producer_sent(before) + #[trigger] data.take(n)
                &&& min(data.len() as int, producer_room(before) as int) <= n
                &&& n <= min(data.len() as int, producer_capacity(before) as int)
                &&& n == data.len() || producer_room(after) == 0
                &&& producer_room(before) <= producer_room(after) + n
                &&& producer_room(after) + n <= producer_capacity(before)
            },
        producer_stream(after) == producer_stream(before),
        producer_capacity(after) == producer_capacity(before),
        producer_sent(after).is_prefix_of(producer_stream(after)),
        producer_room(before) == producer_capacity(before) ==> producer_sent(after)
            == producer_sent(before) + data.take(
            min(data.len() as int, producer_capacity(before) as int),
        ),
{
}

/// Where there is room for all that is delivered, all of it is put in, whatever was put in before.
/// So nothing is dropped while a consumer stalls, as long as no more arrives than it left room for.
pub proof fn law_nothing_is_lost_while_there_is_room(
    producers: Seq<Producer>,
    data: Seq<Seq<SampleFormat>>,
)
    requires
        are_pushed(producers, data),
        data.flatten().len() <= producer_room(producers[0]),
    ensures
        producer_sent(producers.last()) == producer_sent(producers[0]) + data.flatten(),
        producer_room(producers.last()) + data.flatten().len() >= producer_room(producers[0]),
    decreases data.len(),
{
    if data.len() > 0 {
        let (d, p) = (data.drop_last(), producers.drop_last());
        assert forall|i: int| 0 <= i < d.len() implies is_pushed(p[i], #[trigger] d[i], p[i + 1]) by {
            assert(is_pushed(producers[i], data[i], producers[i + 1]));
        }
        assert(d.push(data.last()) == data);
        d.lemma_flatten_push(data.last());
        law_nothing_is_lost_while_there_is_room(p, d);
        assert(is_pushed(p.last(), data[data.len() - 1], producers.last()));
    }
}

/// What the worker can be asked for.
#[derive(Debug)]
pub enum Request {
    Ping,
    StartStream { buffer_duration: Duration, sample_rate: SampleRate },
}

/// What the worker answers. `G` is what keeps a stream alive, and `E` is the error of a stream that
/// could not be started.
pub enum Response<G, E> {
    Pong,
    StartStreamResponse(Result<(StreamHandle<G>, Consumer), E>),
}

/// The worker was killed before it answered.
#[derive(Debug, Clone, Copy, PartialEq, Eq, Structural)]
pub struct RpcError;

impl RpcError {
    /// The text of the error.
    pub fn message(self) -> (message: &'static str)
        ensures
            message@ == "worker is killed"@,
    {
        "worker is killed"
    }
}

/// Whether a response answers a request.
pub open spec fn is_answer<G, E>(request: Request, response: Response<G, E>) -> bool {
    match request {
        Request::Ping => response is Pong,
        Request::StartStream { .. } => response is StartStreamResponse,
    }
}

/// What became of a request: it was answered only if the worker took it and answered it.
pub open spec fn replied<G, E>(sent: bool, response: Option<Response<G, E>>) -> Result<
    Response<G, E>,
    RpcError,
> {
    match response {
        Some(r) if sent => Ok(r),
        _ => Err(RpcError),
    }
}

/// What became of a request. Errors if the underlying worker was already killed.
pub fn send_outcome<G, E>(sent: bool, response: Option<Response<G, E>>) -> (outcome: Result<
    Response<G, E>,
    RpcError,
>)
    ensures
        outcome == replied(sent, response),
{
    if !sent {
        return Err(RpcError);
    }
    match response {
        Some(response) => Ok(response),
        None => Err(RpcError),
    }
}

/// A ping was not answered.
#[derive(Debug, Clone, Copy, PartialEq, Eq, Structural)]
pub struct PingError {
    pub source: RpcError,
}

impl PingError {
    /// The text of the error.
    pub open spec fn text(self) -> Seq<char> {
        "failed to send ping command"@
    }

    /// The text of the error.
    pub fn message(self) -> (message: &'static str)
        ensures
            message@ == self.text(),
            message@ == "failed to send ping command"@,
    {
        "failed to send ping command"
    }
}

/// What a ping comes to.
pub open spec fn pinged<G, E>(reply: Result<Response<G, E>, RpcError>) -> Result<(), PingError> {
    match reply {
        Ok(_) => Ok(()),
        Err(source) => Err(PingError { source }),
    }
}

/// What a ping comes to.
pub fn ping_outcome<G, E>(reply: Result<Response<G, E>, RpcError>) -> (outcome: Result<
    (),
    PingError,
>)
    requires
        reply matches Ok(response) ==> is_answer(Request::Ping, response),
    ensures
        outcome == pinged(reply),
        outcome matches Err(error) ==> error.text() == "failed to send ping command"@,
{
    match reply {
        Ok(Response::Pong) => Ok(()),
        Ok(Response::StartStreamResponse(_)) => unreached(),
        Err(source) => Err(PingError { source }),
    }
}

/// Why no stream could be created.
#[derive(Debug)]
pub enum CreateStreamError<E> {
    /// The worker did not answer.
    Rpc(RpcError),
    /// The stream could not be set up.
    Stream(E),
}

impl<E> CreateStreamError<E> {
    /// What is put in front of the error. The error of a stream is passed on as it is.
    pub open spec fn text(&self) -> Option<Seq<char>> {
        match self {
            CreateStreamError::Rpc(_) => Some("failed to send create_stream command"@),
            CreateStreamError::Stream(_) => None,
        }
    }

    /// What is put in front of the error.
    pub fn message(&self) -> (message: Option<&'static str>)
        ensures
            match message {
                Some(m) => self.text() == Some(m@),
                None => self.text() is None,
            },
            self is Rpc ==> message is Some && message->0@
                == "failed to send create_stream command"@,
            self is Stream ==> message is None,
    {
        match self {
            CreateStreamError::Rpc(_) => Some("failed to send create_stream command"),
            CreateStreamError::Stream(_) => None,
        }
    }
}

/// What a request for a stream comes to.
pub open spec fn created<G, E>(reply: Result<Response<G, E>, RpcError>) -> Result<
    (StreamHandle<G>, Consumer),
    CreateStreamError<E>,
> {
    match reply {
        Ok(response) => match response->StartStreamResponse_0 {
            Ok(stream) => Ok(stream),
            Err(e) => Err(CreateStreamError::Stream(e)),
        },
        Err(e) => Err(CreateStreamError::Rpc(e)),
    }
}

/// What a request for a stream comes to.
pub fn create_stream_outcome<G, E>(reply: Result<Response<G, E>, RpcError>) -> (outcome: Result<
    (StreamHandle<G>, Consumer),
    CreateStreamError<E>,
>)
    requires
        reply matches Ok(response) ==> response is StartStreamResponse,
    ensures
        outcome == created(reply),
        reply is Err ==> outcome->Err_0.text() == Some("failed to send create_stream command"@),
{
    match reply {
        Ok(Response::Pong) => unreached(),
        Ok(Response::StartStreamResponse(Ok(stream))) => Ok(stream),
        Ok(Response::StartStreamResponse(Err(error))) => Err(CreateStreamError::Stream(error)),
        Err(error) => Err(CreateStreamError::Rpc(error)),
    }
}

/// A worker that is alive answers a ping. One that was killed, before it took the ping or before it
/// answered, makes it fail, because the worker is killed; and so does it a request for a stream.
pub proof fn law_killed_worker_fails_requests<G, E>(sent: bool, response: Option<Response<G, E>>)
    ensures
        sent && response == Some(Response::<G, E>::Pong) ==> pinged(replied(sent, response)) is Ok,
        !sent || response is None ==> {
            let (ping, create) = (pinged(replied(sent, response)), created(replied(sent, response)));
            &&& ping == Err::<(), _>(PingError { source: RpcError })
            &&& ping->Err_0.text() == "failed to send ping command"@
            &&& create is Err
            &&& create->Err_0 == CreateStreamError::<E>::Rpc(RpcError)
            &&& create->Err_0.text() == Some("failed to send create_stream command"@)
        },
{
}

/// Why a request for a stream failed.
#[derive(Debug, Clone, Copy, PartialEq, Eq, Structural)]
pub enum StartError {
    /// The stream could not be set up, or not be started.
    Setup(StreamError),
    /// The task that sets it up panicked.
    Panicked,
}

impl StartError {
    /// The text of the error.
    pub open spec fn text(self) -> Seq<char> {
        match self {
            StartError::Setup(StreamError::PlayStream) => "failed to play stream"@,
            StartError::Setup(_) => "failed to create stream"@,
            StartError::Panicked => "task panicked"@,
        }
    }

    /// The text of the error.
    pub fn message(self) -> (message: &'static str)
        ensures
            message@ == self.text(),
            self is Panicked ==> message@ == "task panicked"@,
            self == StartError::Setup(StreamError::PlayStream) ==> message@
                == "failed to play stream"@,
            self is Setup && self != StartError::Setup(StreamError::PlayStream) ==> message@
                == "failed to create stream"@,
    {
        match self {
            StartError::Setup(error) => match error.context() {
                Some(context) => context,
                None => error.message(),
            },
            StartError::Panicked => "task panicked",
        }
    }
}

/// What a request for a stream is answered with if it failed. `C` is what the failure came from.
#[derive(Debug)]
pub struct StartFailure<C> {
    pub error: StartError,
    pub cause: C,
}

/// What the task that sets up a stream comes to: it returned a stream, or an error and what that
/// came from, or it panicked.
pub open spec fn started<S, C>(finished: Result<Result<S, (StreamError, C)>, C>) -> Result<
    S,
    StartFailure<C>,
> {
    match finished {
        Ok(Ok(stream)) => Ok(stream),
        Ok(Err((error, cause))) => Err(StartFailure { error: StartError::Setup(error), cause }),
        Err(cause) => Err(StartFailure { error: StartError::Panicked, cause }),
    }
}

/// What the task that sets up a stream comes to.
pub fn start_outcome<S, C>(finished: Result<Result<S, (StreamError, C)>, C>) -> (outcome: Result<
    S,
    StartFailure<C>,
>)
    ensures
        outcome == started(finished),
{
    match finished {
        Ok(Ok(stream)) => Ok(stream),
        Ok(Err((error, cause))) => Err(StartFailure { error: StartError::Setup(error), cause }),
        Err(cause) => Err(StartFailure { error: StartError::Panicked, cause }),
    }
}

/// What the supervisor is doing.
#[derive(Debug, Clone, Copy, PartialEq, Eq, Structural)]
pub enum SupervisorState {
    /// It waits for a request.
    Receiving,
    /// It has a stream started.
    Starting,
    /// It is done.
    Stopped,
}

/// What the supervisor is told.
pub enum SupervisorEvent<G, E> {
    /// The worker was killed.
    Cancelled,
    /// There is nobody left to send a request.
    Disconnected,
    /// A request came in.
    Received(Request),
    /// The stream was started, or could not be.
    Started(Result<(StreamHandle<G>, Consumer), E>),
}

/// What the supervisor does next.
pub enum SupervisorAction<G, E> {
    /// Have a stream set up and started.
    Start { buffer_duration: Duration, sample_rate: SampleRate },
    /// Answer the request, and wait for the next one.
    Reply(Response<G, E>),
    /// End, without an error.
    Stop,
}

/// Whether `event` can come while the supervisor is in `state`.
pub open spec fn supervisor_awaits<G, E>(state: SupervisorState, event: SupervisorEvent<G, E>) -> bool {
    match state {
        SupervisorState::Receiving => !(event is Started),
        SupervisorState::Starting => event is Started || event is Cancelled,
        SupervisorState::Stopped => false,
    }
}

/// What the supervisor does when it is told `event`.
pub open spec fn supervisor_next<G, E>(state: SupervisorState, event: SupervisorEvent<G, E>) -> (
    SupervisorState,
    SupervisorAction<G, E>,
) {
    match event {
        SupervisorEvent::Cancelled | SupervisorEvent::Disconnected => (
            SupervisorState::Stopped,
            SupervisorAction::Stop,
        ),
        SupervisorEvent::Received(Request::Ping) => (
            SupervisorState::Receiving,
            SupervisorAction::Reply(Response::Pong),
        ),
        SupervisorEvent::Received(Request::StartStream { buffer_duration, sample_rate }) => (
            SupervisorState::Starting,
            SupervisorAction::Start { buffer_duration, sample_rate },
        ),
        SupervisorEvent::Started(result) => (
            SupervisorState::Receiving,
            SupervisorAction::Reply(Response::StartStreamResponse(result)),
        ),
    }
}

/// The broker manages communication with the underlying tasks and handling errors
pub fn supervisor<G, E>(state: SupervisorState, event: SupervisorEvent<G, E>) -> (step: (
    SupervisorState,
    SupervisorAction<G, E>,
))
    requires
        supervisor_awaits(state, event),
    ensures
        step == supervisor_next(state, event),
{
    match event {
        SupervisorEvent::Cancelled => (SupervisorState::Stopped, SupervisorAction::Stop),
        SupervisorEvent::Disconnected => (SupervisorState::Stopped, SupervisorAction::Stop),
        SupervisorEvent::Received(request) => match request {
            Request::Ping => (
                SupervisorState::Receiving,
                SupervisorAction::Reply(Response::Pong),
            ),
            Request::StartStream { buffer_duration, sample_rate } => (
                SupervisorState::Starting,
                SupervisorAction::Start { buffer_duration, sample_rate },
            ),
        },
        SupervisorEvent::Started(result) => (
            SupervisorState::Receiving,
            SupervisorAction::Reply(Response::StartStreamResponse(result)),
        ),
    }
}

/// The state that a supervisor is in after `events`.
pub open spec fn supervisor_after<G, E>(events: Seq<SupervisorEvent<G, E>>) -> SupervisorState
    decreases events.len(),
{
    if events.len() == 0 {
        SupervisorState::Receiving
    } else {
        supervisor_next(supervisor_after(events.drop_last()), events.last()).0
    }
}

/// Whether each of the events can come when it does.
pub open spec fn is_supervisor_run<G, E>(events: Seq<SupervisorEvent<G, E>>) -> bool
    decreases events.len(),
{
    events.len() > 0 ==> is_supervisor_run(events.drop_last()) && supervisor_awaits(
        supervisor_after(events.drop_last()),
        events.last(),
    )
}

/// The requests among the events.
pub open spec fn requests<G, E>(events: Seq<SupervisorEvent<G, E>>) -> Seq<Request>
    decreases events.len(),
{
    if events.len() == 0 {
        Seq::empty()
    } else {
        match events.last() {
            SupervisorEvent::Received(request) => requests(events.drop_last()).push(request),
            _ => requests(events.drop_last()),
        }
    }
}

/// The responses that the supervisor gives to the events.
pub open spec fn responses<G, E>(events: Seq<SupervisorEvent<G, E>>) -> Seq<Response<G, E>>
    decreases events.len(),
{
    if events.len() == 0 {
        Seq::empty()
    } else {
        match supervisor_next(supervisor_after(events.drop_last()), events.last()).1 {
            SupervisorAction::Reply(response) => responses(events.drop_last()).push(response),
            _ => responses(events.drop_last()),
        }
    }
}

/// Requests are answered in the order in which they come, each once and in kind. The one that the
/// supervisor is at work on, or was when it was stopped, is all that can be left without an answer.
pub proof fn law_requests_are_answered<G, E>(events: Seq<SupervisorEvent<G, E>>)
    requires
        is_supervisor_run(events),
    ensures
        responses(events).len() <= requests(events).len() <= responses(events).len() + 1,
        supervisor_after(events) is Receiving ==> requests(events).len() == responses(events).len(),
        supervisor_after(events) is Starting ==> requests(events).len() > responses(events).len(),
        requests(events).len() > responses(events).len() ==> requests(events).last() is StartStream,
        forall|i: int|
            0 <= i < responses(events).len() ==> is_answer(
                requests(events)[i],
                #[trigger] responses(events)[i],
            ),
    decreases events.len(),
{
    if events.len() > 0 {
        law_requests_are_answered(events.drop_last());
    }
}

/// A request for a stream that fails, because its setup or its start does or because the task
/// panicked, is answered with an error that says which, and with no handle. The worker goes on: it
/// still answers a ping.
pub proof fn law_failed_stream_is_answered<G, C>(
    events: Seq<SupervisorEvent<G, StartFailure<C>>>,
    finished: Result<Result<(StreamHandle<G>, Consumer), (StreamError, C)>, C>,
)
    requires
        is_supervisor_run(events),
        supervisor_after(events) is Starting,
        !(finished matches Ok(Ok(_))),
    ensures
        ({
            let failed = events.push(SupervisorEvent::Started(started(finished)));
            let pinged = failed.push(SupervisorEvent::Received(Request::Ping));
            let answer = responses(failed).last();
            &&& is_supervisor_run(pinged)
            &&& responses(failed) == responses(events).push(answer)
            &&& is_answer(requests(failed).last(), answer)
            &&& created(Ok(answer)) matches Err(CreateStreamError::Stream(failure))
            &&& failure.error.text() == match finished {
                Err(_) => "task panicked"@,
                Ok(Err((StreamError::PlayStream, _))) => "failed to play stream"@,
                _ => "failed to create stream"@,
            }
            &&& responses(pinged) == responses(failed).push(Response::Pong)
        }),
{
    let failed = events.push(SupervisorEvent::Started(started(finished)));
    let pinged = failed.push(SupervisorEvent::Received(Request::Ping));
    assert(failed.drop_last() == events);
    assert(pinged.drop_last() == failed);
    law_requests_are_answered(events);
    let answer = responses(failed).last();
    assert(is_supervisor_run(failed));
    assert(answer == Response::StartStreamResponse(started(finished)));
    assert(responses(failed) == responses(events).push(answer));
}

/// A killed worker stops at once, whatever it is doing, and does not answer any more.
pub proof fn law_killed_worker_stops<G, E>(events: Seq<SupervisorEvent<G, E>>)
    ensures
        supervisor_after(events.push(SupervisorEvent::Cancelled)) is Stopped,
        responses(events.push(SupervisorEvent::Cancelled)) == responses(events),
        forall|event: SupervisorEvent<G, E>|
            !is_supervisor_run(#[trigger] events.push(SupervisorEvent::Cancelled).push(event)),
{
    let killed = events.push(SupervisorEvent::Cancelled);
    assert(killed.drop_last() == events);
    assert forall|event: SupervisorEvent<G, E>| !is_supervisor_run(#[trigger] killed.push(event)) by {
        assert(killed.push(event).drop_last() == killed);
    }
}


/// What the supervisor does with each thing that it is told. A request for a stream has one started
/// for the buffer duration and at the sample rate of the request. What came of that is the answer,
/// as it is. A ping is answered at once. When it is killed, or nobody is left to ask, it stops, and
/// for no other reason.
pub proof fn law_supervisor_does_as_it_is_told<G, E>(
    state: SupervisorState,
    event: SupervisorEvent<G, E>,
    next: SupervisorState,
    action: SupervisorAction<G, E>,
)
    requires
        supervisor_awaits(state, event),
        supervisor_next(state, event) == (next, action),
    ensures
        event matches SupervisorEvent::Received(
            Request::StartStream { buffer_duration: d, sample_rate: r },
        ) ==> action == (SupervisorAction::<G, E>::Start { buffer_duration: d, sample_rate: r }),
        action matches SupervisorAction::Start { buffer_duration: d, sample_rate: r } ==> event
            == SupervisorEvent::<G, E>::Received(
            Request::StartStream { buffer_duration: d, sample_rate: r },
        ),
        event == SupervisorEvent::<G, E>::Received(Request::Ping) <==> action
            == SupervisorAction::<G, E>::Reply(Response::Pong),
        event matches SupervisorEvent::Started(result) ==> action
            == SupervisorAction::<G, E>::Reply(Response::StartStreamResponse(result)),
        action matches SupervisorAction::Reply(Response::StartStreamResponse(result)) ==> event
            == SupervisorEvent::<G, E>::Started(result),
        event is Cancelled || event is Disconnected <==> action is Stop,
        next is Stopped <==> action is Stop,
        next is Starting <==> action is Start,
        next is Receiving <==> action is Reply,
{
}

/// While it waits for requests, the supervisor can be told anything but what came of a stream. While
/// it has one started, it hears of that, or that it is killed. Once stopped it hears nothing.
pub proof fn law_supervisor_listens<G, E>(event: SupervisorEvent<G, E>)
    ensures
        supervisor_awaits(SupervisorState::Receiving, event) <==> event is Cancelled
            || event is Disconnected || event is Received,
        supervisor_awaits(SupervisorState::Starting, event) <==> event is Cancelled
            || event is Started,
        !supervisor_awaits(SupervisorState::Stopped, event),
{
}

/// The buffer durations and sample rates that requests among the events ask for.
pub open spec fn asked_for<G, E>(events: Seq<SupervisorEvent<G, E>>) -> Seq<(Duration, SampleRate)>
    decreases events.len(),
{
    if events.len() == 0 {
        Seq::empty()
    } else {
        match events.last() {
            SupervisorEvent::Received(Request::StartStream { buffer_duration, sample_rate }) =>
                asked_for(events.drop_last()).push((buffer_duration, sample_rate)),
            _ => asked_for(events.drop_last()),
        }
    }
}

/// The buffer durations and sample rates that the supervisor has streams started with.
pub open spec fn started_with<G, E>(events: Seq<SupervisorEvent<G, E>>) -> Seq<
    (Duration, SampleRate),
>
    decreases events.len(),
{
    if events.len() == 0 {
        Seq::empty()
    } else {
        match supervisor_next(supervisor_after(events.drop_last()), events.last()).1 {
            SupervisorAction::Start { buffer_duration, sample_rate } => started_with(
                events.drop_last(),
            ).push((buffer_duration, sample_rate)),
            _ => started_with(events.drop_last()),
        }
    }
}

/// Streams are started just as they are asked for: one for each request, in the order of the
/// requests, each with the buffer duration and the sample rate of its own.
pub proof fn law_streams_are_started_as_asked_for<G, E>(events: Seq<SupervisorEvent<G, E>>)
    requires
        is_supervisor_run(events),
    ensures
        started_with(events) == asked_for(events),
    decreases events.len(),
{
    if events.len() > 0 {
        law_streams_are_started_as_asked_for(events.drop_last());
    }
}

/// What is handed on unchanged: the answer of the worker to who sent the request, the stream in it
/// to who asked for one, and the stream or the error of a setup to the answer. Without an answer, or
/// with a request that was not taken, the worker is killed.
pub proof fn law_answers_are_handed_on<G, E, S, C>(
    response: Response<G, E>,
    result: Result<(StreamHandle<G>, Consumer), E>,
    stream: S,
    error: StreamError,
    cause: C,
)
    ensures
        replied(true, Some(response)) == Ok::<_, RpcError>(response),
        replied(true, None::<Response<G, E>>) is Err,
        replied(false, None::<Response<G, E>>) is Err,
        replied(false, Some(response)) is Err,
        created(Ok(Response::StartStreamResponse(result))) is Ok <==> result is Ok,
        result matches Ok(got) ==> created(Ok(Response::StartStreamResponse(result))) == Ok::<
            _,
            CreateStreamError<E>,
        >(got),
        result matches Err(e) ==> created(Ok(Response::StartStreamResponse(result))) == Err::<
            (StreamHandle<G>, Consumer),
            _,
        >(CreateStreamError::Stream(e)),
        created::<G, E>(Err(RpcError)) == Err::<(StreamHandle<G>, Consumer), _>(
            CreateStreamError::<E>::Rpc(RpcError),
        ),
        pinged(Ok::<_, RpcError>(response)) is Ok,
        pinged::<G, E>(Err(RpcError)) == Err::<(), _>(PingError { source: RpcError }),
        started(Ok::<Result<S, (StreamError, C)>, C>(Ok(stream))) == Ok::<_, StartFailure<C>>(
            stream,
        ),
        started(Ok::<Result<S, (StreamError, C)>, C>(Err((error, cause)))) == Err::<S, _>(
            StartFailure { error: StartError::Setup(error), cause },
        ),
        started(Err::<Result<S, (StreamError, C)>, C>(cause)) == Err::<S, _>(
            StartFailure { error: StartError::Panicked, cause },
        ),
{
}

/// A pong answers a ping, and what came of a stream answers a request for one; nothing else does.
pub proof fn law_answers_are_in_kind<G, E>(request: Request, response: Response<G, E>)
    ensures
        is_answer(request, response) <==> (request is Ping <==> response is Pong),
{
}

} // verus!
