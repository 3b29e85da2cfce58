//! Handles audio analysis, and generates a spectrogram + additional data.

use std::cmp::Ordering;
use std::time::Duration;

use vstd::prelude::*;

use crate::sample::{
    at_least, is_at_least, is_nan_64, is_widening, law_no_number_past_infinity, widen, SampleFormat,
};
use crate::settings::{lemma_default_sizes, DefaultStftSettings, StftSettings, StftSettingsExt};
use crate::spectrogram::{
    are_bins, is_analysis, law_columns_of_chunks, law_windows_are_hann_windows, Spectrogram,
    SpectrogramView,
};
use crate::spectrum::{
    is_polar, is_rstft, rfft_frequencies, window_count, ComplexFormat, WindowType,
};
use crate::time::duration_nanos;
use crate::workers::ring::{
    consumer_capacity, consumer_items, consumer_seen, consumer_stream, consumer_taken,
    is_same_consumer, producer_stream, Consumer, Producer,
};

verus! {

/// The most chunks that are taken off the ring buffer at once.
pub const MAX_CHUNKS_TO_POP: u8 = 8;

/// How long to wait between two looks at the ring buffer: they come at 4x the rate that would be
/// needed to prevent the buffer from filling.
pub fn poll_interval(ringbuf_duration: Duration) -> (interval: Duration)
    ensures
        duration_nanos(interval) == duration_nanos(ringbuf_duration) / 4,
{
    let secs: u64 = ringbuf_duration.as_secs();
    let subsec: u64 = ringbuf_duration.subsec_nanos() as u64;
    let nanos: u64 = (secs % 4) * 1_000_000_000 + subsec;
    assert(secs * 1_000_000_000 + subsec == duration_nanos(ringbuf_duration));
    Duration::new(secs / 4, (nanos / 4) as u32)
}

/// Whether `wide` are the doubles that equal the singles of `narrow`.
pub open spec fn are_widened(narrow: Seq<u32>, wide: Seq<SampleFormat>) -> bool {
    &&& wide.len() == narrow.len()
    &&& forall|i: int| 0 <= i < narrow.len() ==> is_widening(narrow[i], #[trigger] wide[i])
}

/// The doubles that equal the given singles.
pub fn widen_all(narrow: &[u32]) -> (wide: Vec<SampleFormat>)
    ensures
        are_widened(narrow@, wide@),
{
    let mut wide: Vec<SampleFormat> = Vec::new();
    for i in 0..narrow.len()
        invariant
            are_widened(narrow@.take(i as int), wide@),
    {
        wide.push(widen(narrow[i]));
    }
    assert(narrow@.take(narrow@.len() as int) == narrow@);
    wide
}

/// The number of whole chunks to take off a ring buffer that holds `occupied` samples.
pub open spec fn chunks_to_pop(occupied: nat, fft_size: nat) -> nat {
    if occupied / fft_size < MAX_CHUNKS_TO_POP {
        occupied / fft_size
    } else {
        MAX_CHUNKS_TO_POP as nat
    }
}

/// Whether a spectrogram has grown by the columns of `samples`, and by nothing if there are none.
pub open spec fn is_drawn(
    spec_before: SpectrogramView,
    samples: Seq<u32>,
    spec_after: SpectrogramView,
) -> bool {
    &&& spec_after.frequencies == spec_before.frequencies
    &&& spec_before.columns.is_prefix_of(spec_after.columns)
    &&& if samples.len() == 0 {
        spec_after.columns == spec_before.columns
    } else {
        &&& spec_after.columns.len() == spec_before.columns.len() + window_count(
            samples.len(),
            DefaultStftSettings::FFT_SIZE as nat,
            DefaultStftSettings::HOP_SIZE as nat,
        )
        &&& exists|waveform: Seq<SampleFormat>| #[trigger]
            are_widened(samples, waveform) && is_analysis::<DefaultStftSettings>(
                waveform,
                spec_after.columns.skip(spec_before.columns.len() as int),
            )
    }
}

/// Takes whole chunks, at most [`MAX_CHUNKS_TO_POP`] of them, off a ring buffer that was seen to
/// hold `occupied` samples, and appends their columns to the spectrogram. Returns the number of
/// chunks.
pub fn pop_chunks(
    spec: &mut Spectrogram<DefaultStftSettings>,
    sample_rx: &mut Consumer,
    occupied: usize,
) -> (n_chunks: usize)
    requires
        old(spec).well_formed(),
        occupied <= consumer_items(*old(sample_rx)).len(),
    ensures
        final(spec).well_formed(),
        n_chunks == chunks_to_pop(occupied as nat, DefaultStftSettings::FFT_SIZE as nat),
        is_drawn(
            old(spec)@,
            consumer_items(*old(sample_rx)).take(n_chunks * DefaultStftSettings::FFT_SIZE),
            final(spec)@,
        ),
        is_same_consumer(*old(sample_rx), *final(sample_rx)),
        consumer_taken(*final(sample_rx)) == consumer_taken(*old(sample_rx)) + consumer_items(
            *old(sample_rx),
        ).take(n_chunks * DefaultStftSettings::FFT_SIZE),
        consumer_seen(*old(sample_rx)).is_prefix_of(consumer_seen(*final(sample_rx))),
        if n_chunks == 0 {
            *final(sample_rx) == *old(sample_rx)
        } else {
            &&& consumer_seen(*final(sample_rx)).is_prefix_of(consumer_stream(*final(sample_rx)))
            &&& n_chunks * DefaultStftSettings::FFT_SIZE + consumer_items(*final(sample_rx)).len()
                <= consumer_capacity(*final(sample_rx))
        },
{
    proof {
        lemma_default_sizes();
    }
    let whole: usize = occupied / DefaultStftSettings::FFT_SIZE;
    let max_chunks: usize = MAX_CHUNKS_TO_POP as usize;
    let n_chunks: usize = if whole < max_chunks {
        whole
    } else {
        max_chunks
    };
    let ghost (taken, items) = (consumer_taken(*sample_rx), consumer_items(*sample_rx));
    if n_chunks == 0 {
        assert(taken + items.take(0) == taken);
        return 0;
    }
    let n_samples: usize = n_chunks * DefaultStftSettings::FFT_SIZE;
    let mut samples: Vec<u32> = vec![0u32; n_samples];
    let n_popped: usize = sample_rx.pop_slice(samples.as_mut_slice());
    proof {
        let seen = consumer_seen(*sample_rx);
        assert(taken + items == seen.take((taken + items).len() as int));
        assert(n_popped == n_samples);
        assert(samples@.take(n_popped as int) == samples@);
        assert forall|i: int| 0 <= i < n_samples implies samples@[i] == items[i] by {
            assert(seen[taken.len() + i] == samples@[i]);
            assert((taken + items)[taken.len() + i] == items[i]);
        }
        assert(samples@ == items.take(n_samples as int));
    }
    let waveform = widen_all(samples.as_slice());
    let pushed: usize = spec.push_samples(waveform.as_slice());
    assert(pushed == n_chunks);
    pushed
}

/// What one look at the ring buffer does: it finds `occupied` samples, pops whole chunks of them,
/// and draws what it popped.
pub open spec fn is_poll(
    spec_before: SpectrogramView,
    before: Consumer,
    spec_after: SpectrogramView,
    after: Consumer,
    popped: Seq<u32>,
    occupied: nat,
) -> bool {
    &&& is_same_consumer(before, after)
    &&& consumer_items(before).len() <= occupied <= popped.len() + consumer_items(after).len()
    &&& popped.len() + consumer_items(after).len() <= consumer_capacity(after)
    &&& popped.len() == 0 ==> occupied == consumer_items(after).len()
    &&& popped.len() == chunks_to_pop(occupied, DefaultStftSettings::FFT_SIZE as nat)
        * DefaultStftSettings::FFT_SIZE
    &&& consumer_taken(after) == consumer_taken(before) + popped
    &&& consumer_seen(before).is_prefix_of(consumer_seen(after))
    &&& consumer_seen(after).is_prefix_of(consumer_stream(after))
    &&& is_drawn(spec_before, popped, spec_after)
}

/// Whether one look at the ring buffer can have done this, with `n_chunks` chunks popped.
pub open spec fn is_polled(
    spec_before: SpectrogramView,
    before: Consumer,
    spec_after: SpectrogramView,
    after: Consumer,
    n_chunks: nat,
) -> bool {
    exists|popped: Seq<u32>, occupied: nat|
        #[trigger] is_poll(spec_before, before, spec_after, after, popped, occupied)
            && popped.len() == n_chunks * DefaultStftSettings::FFT_SIZE
}

/// Takes the whole chunks that have arrived off the ring buffer, at most [`MAX_CHUNKS_TO_POP`] of
/// them, and appends their columns to the spectrogram. Returns the number of chunks.
pub fn poll(
    spec: &mut Spectrogram<DefaultStftSettings>,
    sample_rx: &mut Consumer,
) -> (n_chunks: usize)
    requires
        old(spec).well_formed(),
    ensures
        final(spec).well_formed(),
        is_polled(old(spec)@, *old(sample_rx), final(spec)@, *final(sample_rx), n_chunks as nat),
{
    // More may arrive after this. That is fine: no more than this is popped.
    let occupied: usize = sample_rx.occupied_len();
    let ghost looked = *sample_rx;
    let n_chunks: usize = pop_chunks(spec, sample_rx, occupied);
    proof {
        lemma_default_sizes();
        let (before, after) = (*old(sample_rx), *sample_rx);
        let popped = consumer_items(looked).take(n_chunks * DefaultStftSettings::FFT_SIZE);
        assert(consumer_items(before) == consumer_items(looked).take(
            consumer_items(before).len() as int,
        ));
        assert(consumer_seen(before) == consumer_seen(looked).take(
            consumer_seen(before).len() as int,
        ));
        assert(consumer_seen(looked) == consumer_seen(after).take(
            consumer_seen(looked).len() as int,
        ));
        assert(consumer_seen(before) == consumer_seen(after).take(
            consumer_seen(before).len() as int,
        ));
        assert(n_chunks * DefaultStftSettings::FFT_SIZE == n_chunks * 2048);
        assert(n_chunks * 2048 <= occupied);
        if n_chunks == 0 {
            assert(popped == Seq::<u32>::empty());
        }
        assert(is_poll(old(spec)@, before, spec@, after, popped, occupied as nat));
    }
    n_chunks
}

/// The state of the analysis: what it has drawn, and where its samples come from.
pub struct Entry {
    pub spec: Spectrogram<DefaultStftSettings>,
    pub sample_rx: Consumer,
}

/// What the analysis waits for.
pub enum EntryEvent {
    /// The worker was asked whether it is cancelled.
    Checked { cancelled: bool },
    /// The time between two looks at the ring buffer has passed.
    Ticked,
}

/// What the analysis does next.
#[derive(Debug, Clone, Copy, PartialEq, Eq, Structural)]
pub enum EntryAction {
    /// Ask whether the worker is cancelled.
    Check,
    /// Wait for the next tick.
    Tick,
    /// End, without an error.
    Stop,
}

/// What the analysis does after `event`: it waits for a tick unless the worker is cancelled, and asks
/// about that again after each.
pub open spec fn entry_action(event: EntryEvent) -> EntryAction {
    match event {
        EntryEvent::Checked { cancelled: true } => EntryAction::Stop,
        EntryEvent::Checked { cancelled: false } => EntryAction::Tick,
        EntryEvent::Ticked => EntryAction::Check,
    }
}

impl Entry {
    /// Starts with an empty spectrogram.
    pub fn new(sample_rate: u32, sample_rx: Consumer) -> (entry: Self)
        ensures
            entry.spec.well_formed(),
            entry.spec@.frequencies == rfft_frequencies(DefaultStftSettings::FFT_SIZE, sample_rate),
            are_bins(entry.spec@.frequencies, DefaultStftSettings::FFT_SIZE as nat, sample_rate),
            entry.spec@.columns == Seq::<Seq<SampleFormat>>::empty(),
            entry.sample_rx == sample_rx,
    {
        proof {
            lemma_default_sizes();
        }
        Entry { spec: Spectrogram::new(sample_rate), sample_rx }
    }

    /// Looks at the ring buffer at every tick, until the worker is cancelled.
    pub fn step(&mut self, event: EntryEvent) -> (action: EntryAction)
        requires
            old(self).spec.well_formed(),
        ensures
            final(self).spec.well_formed(),
            action == entry_action(event),
            event is Checked ==> *final(self) == *old(self),
            event is Ticked ==> exists|n_chunks: nat| #[trigger]
                is_polled(
                    old(self).spec@,
                    old(self).sample_rx,
                    final(self).spec@,
                    final(self).sample_rx,
                    n_chunks,
                ),
    {
        match event {
            EntryEvent::Checked { cancelled } => if cancelled {
                EntryAction::Stop
            } else {
                EntryAction::Tick
            },
            EntryEvent::Ticked => {
                let n_chunks: usize = poll(&mut self.spec, &mut self.sample_rx);
                assert(is_polled(
                    old(self).spec@,
                    old(self).sample_rx,
                    self.spec@,
                    self.sample_rx,
                    n_chunks as nat,
                ));
                EntryAction::Check
            },
        }
    }
}

/// Whether `event` is what comes of `action`.
pub open spec fn entry_awaits(action: EntryAction, event: EntryEvent) -> bool {
    match action {
        EntryAction::Check => event is Checked,
        EntryAction::Tick => event is Ticked,
        EntryAction::Stop => false,
    }
}

/// Whether each of the events is what the analysis waits for when it comes. It begins by asking
/// whether the worker is cancelled.
pub open spec fn is_entry_run(events: Seq<EntryEvent>) -> bool
    decreases events.len(),
{
    events.len() > 0 ==> is_entry_run(events.drop_last()) && entry_awaits(
        if events.len() == 1 {
            EntryAction::Check
        } else {
            entry_action(events[events.len() - 2])
        },
        events.last(),
    )
}

/// The number of looks at the ring buffer: one for each tick.
pub open spec fn looks(events: Seq<EntryEvent>) -> nat
    decreases events.len(),
{
    if events.len() == 0 {
        0
    } else {
        looks(events.drop_last()) + if events.last() is Ticked {
            1nat
        } else {
            0nat
        }
    }
}

/// When a tick that `n` others come before is due, in nanoseconds after the first, which is due at
/// once: ticks are scheduled [`poll_interval`] apart.
pub open spec fn tick_due(ringbuf_duration: Duration, n: nat) -> nat {
    n * (duration_nanos(ringbuf_duration) / 4)
}

/// The analysis looks at the ring buffer once at every tick, and not in between, until it is
/// cancelled.
pub proof fn law_one_look_per_tick(events: Seq<EntryEvent>)
    requires
        is_entry_run(events),
    ensures
        looks(events) == events.len() / 2,
        forall|i: int|
            0 <= i < events.len() ==> ((#[trigger] events[i]) is Ticked <==> i % 2 == 1),
        forall|i: int|
            0 <= i < events.len() - 1 ==> (#[trigger] events[i]) != (EntryEvent::Checked {
                cancelled: true,
            }),
    decreases events.len(),
{
    if events.len() > 0 {
        let before = events.drop_last();
        law_one_look_per_tick(before);
        assert forall|i: int| 0 <= i < events.len() - 1 implies #[trigger] events[i] == before[i] by {
        }
        if events.len() > 1 {
            assert(before[events.len() - 2] is Ticked <==> (events.len() - 2) % 2 == 1);
        }
    }
}

/// Ticks are scheduled at 4x the rate that would be needed to prevent the buffer from filling: the
/// first at once, and from any time on, four of them within the duration of the buffer.
pub proof fn law_ticks_come_four_times_per_buffer(ringbuf_duration: Duration, from: nat)
    requires
        duration_nanos(ringbuf_duration) >= 4,
    ensures
        tick_due(ringbuf_duration, 0) == 0,
        forall|n: nat| #[trigger]
            tick_due(ringbuf_duration, n + 1) == tick_due(ringbuf_duration, n) + duration_nanos(
                ringbuf_duration,
            ) / 4,
        exists|n: nat|
            from <= #[trigger] tick_due(ringbuf_duration, n) && tick_due(ringbuf_duration, n + 3)
                <= from + duration_nanos(ringbuf_duration),
{
    let period = (duration_nanos(ringbuf_duration) / 4) as int;
    assert(0 * period == 0);
    assert forall|n: nat| #[trigger] tick_due(ringbuf_duration, n + 1) == tick_due(
        ringbuf_duration,
        n,
    ) + period by {
        assert((n + 1) * period == n * period + period) by (nonlinear_arith);
    }
    let n = ((from + period - 1) / period) as nat;
    vstd::arithmetic::div_mod::lemma_fundamental_div_mod(from + period - 1, period);
    assert(from <= n * period && (n + 3) * period <= from + 4 * period) by (nonlinear_arith)
        requires
            from + period - 1 == period * n + (from + period - 1) % period,
            0 <= (from + period - 1) % period < period,
            period > 0,
    ;
    assert(from <= tick_due(ringbuf_duration, n));
}

/// A look at the ring buffer takes all the whole chunks that were seen to be there, or as many as
/// it may. If it takes none, less than a chunk is in sight.
pub proof fn law_poll_keeps_up(
    spec_before: SpectrogramView,
    before: Consumer,
    spec_after: SpectrogramView,
    after: Consumer,
    popped: Seq<u32>,
    occupied: nat,
)
    requires
        is_poll(spec_before, before, spec_after, after, popped, occupied),
    ensures
        popped.len() <= MAX_CHUNKS_TO_POP * DefaultStftSettings::FFT_SIZE,
        popped.len() == MAX_CHUNKS_TO_POP * DefaultStftSettings::FFT_SIZE || occupied
            - popped.len() < DefaultStftSettings::FFT_SIZE,
        popped.len() == 0 ==> consumer_items(after).len() < DefaultStftSettings::FFT_SIZE,
{
    lemma_default_sizes();
}

/// Whether looks at the ring buffer, one after the other, went through these spectrograms and these
/// states of its end, and each popped its part of `popped`.
pub open spec fn are_polls(
    specs: Seq<SpectrogramView>,
    consumers: Seq<Consumer>,
    popped: Seq<Seq<u32>>,
    occupied: Seq<nat>,
) -> bool {
    &&& specs.len() == popped.len() + 1
    &&& consumers.len() == popped.len() + 1
    &&& occupied.len() == popped.len()
    &&& forall|i: int|
        0 <= i < popped.len() ==> is_poll(
            specs[i],
            consumers[i],
            specs[i + 1],
            consumers[i + 1],
            #[trigger] popped[i],
            occupied[i],
        )
}

/// What is drawn is what was recorded: of the samples that were put into the ring buffer, looks that
/// follow each other draw the ones that come next, in the order in which they were put in, with none
/// left out and none drawn twice.
pub proof fn law_polls_draw_what_was_sent(
    producer: Producer,
    specs: Seq<SpectrogramView>,
    consumers: Seq<Consumer>,
    popped: Seq<Seq<u32>>,
    occupied: Seq<nat>,
)
    requires
        popped.len() > 0,
        are_polls(specs, consumers, popped, occupied),
        producer_stream(producer) == consumer_stream(consumers[0]),
    ensures
        ({
            let from = consumer_taken(consumers[0]).len() as int;
            let to = from + popped.flatten().len();
            &&& to <= producer_stream(producer).len()
            &&& popped.flatten() == producer_stream(producer).subrange(from, to)
        }),
{
    lemma_polls_take(specs, consumers, popped, occupied);
    let last = popped.len() - 1;
    assert(is_poll(
        specs[last],
        consumers[last],
        specs[last + 1],
        consumers[last + 1],
        popped[last],
        occupied[last],
    ));
    let (stream, drawn) = (producer_stream(producer), popped.flatten());
    let (taken, seen) = (consumer_taken(consumers.last()), consumer_seen(consumers.last()));
    assert(seen == stream.take(seen.len() as int));
    assert(taken == seen.take(taken.len() as int));
    assert(taken == stream.take(taken.len() as int));
    let from = consumer_taken(consumers[0]).len() as int;
    assert forall|i: int| 0 <= i < drawn.len() implies drawn[i] == stream[from + i] by {
        assert(taken[from + i] == drawn[i]);
        assert(stream.take(taken.len() as int)[from + i] == stream[from + i]);
    }
    assert(drawn == stream.subrange(from, from + drawn.len()));
}

/// All that the looks popped was taken off the same ring buffer.
proof fn lemma_polls_take(
    specs: Seq<SpectrogramView>,
    consumers: Seq<Consumer>,
    popped: Seq<Seq<u32>>,
    occupied: Seq<nat>,
)
    requires
        are_polls(specs, consumers, popped, occupied),
    ensures
        is_same_consumer(consumers[0], consumers.last()),
        consumer_taken(consumers.last()) == consumer_taken(consumers[0]) + popped.flatten(),
    decreases popped.len(),
{
    if popped.len() > 0 {
        let (s, c, p, o) = (
            specs.drop_last(),
            consumers.drop_last(),
            popped.drop_last(),
            occupied.drop_last(),
        );
        assert forall|i: int| 0 <= i < p.len() implies is_poll(
            s[i],
            c[i],
            s[i + 1],
            c[i + 1],
            #[trigger] p[i],
            o[i],
        ) by {
            assert(is_poll(
                specs[i],
                consumers[i],
                specs[i + 1],
                consumers[i + 1],
                popped[i],
                occupied[i],
            ));
        }
        assert(p.push(popped.last()) == popped);
        p.lemma_flatten_push(popped.last());
        lemma_polls_take(s, c, p, o);
        assert(is_poll(
            s.last(),
            c.last(),
            specs.last(),
            consumers.last(),
            popped[popped.len() - 1],
            occupied.last(),
        ));
    }
}

/// However many looks there are, what they pop comes to whole chunks.
pub proof fn law_polls_pop_whole_chunks(
    specs: Seq<SpectrogramView>,
    consumers: Seq<Consumer>,
    popped: Seq<Seq<u32>>,
    occupied: Seq<nat>,
)
    requires
        are_polls(specs, consumers, popped, occupied),
    ensures
        popped.flatten().len() % (DefaultStftSettings::FFT_SIZE as nat) == 0,
        consumer_taken(consumers.last()).len() == consumer_taken(consumers[0]).len()
            + popped.flatten().len(),
    decreases popped.len(),
{
    lemma_polls_take(specs, consumers, popped, occupied);
    lemma_default_sizes();
    if popped.len() > 0 {
        let (s, c, p, o) = (
            specs.drop_last(),
            consumers.drop_last(),
            popped.drop_last(),
            occupied.drop_last(),
        );
        assert forall|i: int| 0 <= i < p.len() implies is_poll(
            s[i],
            c[i],
            s[i + 1],
            c[i + 1],
            #[trigger] p[i],
            o[i],
        ) by {
            assert(popped[i] == p[i]);
        }
        assert(p.push(popped.last()) == popped);
        p.lemma_flatten_push(popped.last());
        law_polls_pop_whole_chunks(s, c, p, o);
        assert(popped[popped.len() - 1].len() % 2048 == 0);
    }
}

/// Columns are only ever added, and the frequencies of the rows stay as they are.
pub proof fn law_drawing_keeps_columns(
    first: SpectrogramView,
    samples: Seq<u32>,
    second: SpectrogramView,
    more: Seq<u32>,
    third: SpectrogramView,
)
    requires
        is_drawn(first, samples, second),
        is_drawn(second, more, third),
    ensures
        first.columns.is_prefix_of(third.columns),
        first.frequencies == third.frequencies,
{
    assert(first.columns == second.columns.take(first.columns.len() as int));
    assert(second.columns == third.columns.take(second.columns.len() as int));
    assert(first.columns == third.columns.take(first.columns.len() as int));
}

/// A color, by its red, green and blue components and its opacity.
#[derive(Debug, Clone, Copy, PartialEq, Eq, Structural)]
pub struct Color32 {
    pub r: u8,
    pub g: u8,
    pub b: u8,
    pub a: u8,
}

impl Color32 {
    /// An opaque color.
    pub fn from_rgb(r: u8, g: u8, b: u8) -> (color: Self)
        ensures
            color == (Color32 { r, g, b, a: 255 }),
    {
        Color32 { r, g, b, a: 255 }
    }
}

/// Whether `color` is one that `gradient` gives a magnitude, made opaque.
pub open spec fn is_color_of<G: Fn(SampleFormat) -> [u8; 4]>(
    gradient: G,
    magnitude: SampleFormat,
    color: Color32,
) -> bool {
    exists|rgba: [u8; 4]|
        #![trigger call_ensures(gradient, (magnitude,), rgba)]
        call_ensures(gradient, (magnitude,), rgba) && color.r == rgba@[0] && color.g == rgba@[1]
            && color.b == rgba@[2] && color.a == 255
}

/// Returns whether a colum was extracted or not. Guaranteed to extract as long as
/// column index is in-bounds of the spec.
///
/// `gradient` gives the red, green, blue and alpha components for a magnitude.
pub fn extract_column<T: StftSettings, G: Fn(SampleFormat) -> [u8; 4]>(
    spec: &Spectrogram<T>,
    column_index: usize,
    out: &mut Vec<Color32>,
    gradient: G,
) -> (extracted: bool)
    requires
        column_index < spec@.columns.len() ==> forall|i: int|
            #![trigger spec@.columns[column_index as int][i]]
            0 <= i < spec@.columns[column_index as int].len() ==> call_requires(
                gradient,
                (spec@.columns[column_index as int][i],),
            ),
    ensures
        extracted == (column_index < spec@.columns.len()),
        !extracted ==> final(out)@ == old(out)@,
        extracted ==> {
            let column = spec@.columns[column_index as int];
            &&& final(out)@.len() == column.len()
            &&& forall|i: int|
                0 <= i < column.len() ==> is_color_of(gradient, column[i], #[trigger] final(out)@[i])
        },
{
    match spec.column(column_index) {
        None => false,
        Some(mags) => {
            out.clear();
            let mags = mags.as_slice();
            for i in 0..mags.len()
                invariant
                    mags@ == spec@.columns[column_index as int],
                    out@.len() == i,
                    forall|j: int|
                        #![trigger mags@[j]]
                        0 <= j < mags@.len() ==> call_requires(gradient, (mags@[j],)),
                    forall|j: int|
                        0 <= j < i ==> is_color_of(gradient, mags@[j], #[trigger] out@[j]),
            {
                let c = gradient(mags[i]);
                out.push(Color32::from_rgb(c[0], c[1], c[2]));
            }
            true
        },
    }
}

/// Orders magnitudes from the largest down: `Greater` where the second is at least the first. Bits
/// that belong to no number come out as `Less` on either side.
pub fn my_f64_cmp(a: SampleFormat, b: SampleFormat) -> (order: Ordering)
    ensures
        order == if at_least(b, a) {
            Ordering::Greater
        } else {
            Ordering::Less
        },
{
    if is_at_least(b, a) {
        Ordering::Greater
    } else {
        Ordering::Less
    }
}

/// Whether [`my_f64_cmp`] has `a` as the greater one of the two.
fn comes_out_greater(a: SampleFormat, b: SampleFormat) -> (greater: bool)
    ensures
        greater == at_least(b, a),
{
    match my_f64_cmp(a, b) {
        Ordering::Greater => true,
        _ => false,
    }
}

/// The magnitude that is left of a column when each in turn replaces the one kept so far, unless
/// that one comes out as `Greater` against it.
pub open spec fn peak_of(magnitudes: Seq<SampleFormat>) -> SampleFormat
    decreases magnitudes.len(),
{
    if magnitudes.len() <= 1 {
        magnitudes[0]
    } else {
        let kept = peak_of(magnitudes.drop_last());
        if at_least(magnitudes.last(), kept) {
            kept
        } else {
            magnitudes.last()
        }
    }
}

/// The greatest of some magnitudes as [`my_f64_cmp`] orders them, if there are any. Where all are
/// numbers, that is the first of the smallest.
pub fn peak(magnitudes: &[SampleFormat]) -> (peak: Option<SampleFormat>)
    ensures
        peak is None <==> magnitudes@.len() == 0,
        peak matches Some(p) ==> {
            &&& magnitudes@.contains(p)
            &&& p == peak_of(magnitudes@)
            &&& are_numbers(magnitudes@) ==> is_first_smallest(magnitudes@, p)
        },
{
    if magnitudes.len() == 0 {
        return None;
    }
    let mut kept: SampleFormat = magnitudes[0];
    let mut at: usize = 0;
    assert(magnitudes@.take(1).drop_last() == Seq::<SampleFormat>::empty());
    for i in 1..magnitudes.len()
        invariant
            at < i <= magnitudes@.len(),
            kept == magnitudes@[at as int],
            kept == peak_of(magnitudes@.take(i as int)),
            are_numbers(magnitudes@) ==> forall|j: int|
                0 <= j < i ==> at_least(#[trigger] magnitudes@[j], kept),
            are_numbers(magnitudes@) ==> forall|j: int|
                0 <= j < at ==> !at_least(kept, #[trigger] magnitudes@[j]),
    {
        assert(magnitudes@.take(i + 1).drop_last() == magnitudes@.take(i as int));
        let next: SampleFormat = magnitudes[i];
        if !comes_out_greater(kept, next) {
            kept = next;
            at = i;
        }
    }
    assert(magnitudes@.take(magnitudes@.len() as int) == magnitudes@);
    Some(kept)
}

/// Whether all of the magnitudes are numbers.
pub open spec fn are_numbers(magnitudes: Seq<SampleFormat>) -> bool {
    forall|i: int| 0 <= i < magnitudes.len() ==> !is_nan_64(#[trigger] magnitudes[i])
}

/// Whether `p` is the first of the smallest magnitudes.
pub open spec fn is_first_smallest(magnitudes: Seq<SampleFormat>, p: SampleFormat) -> bool {
    exists|at: int|
        {
            &&& 0 <= at < magnitudes.len()
            &&& #[trigger] magnitudes[at] == p
            &&& forall|j: int| 0 <= j < magnitudes.len() ==> at_least(#[trigger] magnitudes[j], p)
            &&& forall|j: int| 0 <= j < at ==> !at_least(p, #[trigger] magnitudes[j])
        }
}


/// Whole chunks are popped, at most eight, and as many as are there.
pub proof fn law_as_many_chunks_as_there_are(occupied: nat, fft_size: nat)
    requires
        fft_size > 0,
    ensures
        chunks_to_pop(occupied, fft_size) <= 8,
        chunks_to_pop(occupied, fft_size) * fft_size <= occupied,
        chunks_to_pop(occupied, fft_size) == 8 || occupied < (chunks_to_pop(occupied, fft_size) + 1)
            * fft_size,
{
    let (q, fft) = ((occupied / fft_size) as int, fft_size as int);
    vstd::arithmetic::div_mod::lemma_fundamental_div_mod(occupied as int, fft);
    assert(q * fft == fft * q && (q + 1) * fft == fft * q + fft) by (nonlinear_arith);
    if q >= 8 {
        assert(8 * fft <= q * fft) by (nonlinear_arith)
            requires
                q >= 8,
                fft > 0,
        ;
    }
}

/// Samples are widened one by one: there are as many doubles as singles, and each equals the single
/// in its place.
pub proof fn law_samples_are_widened_one_by_one(narrow: Seq<u32>, wide: Seq<SampleFormat>)
    ensures
        are_widened(narrow, wide) <==> {
            &&& wide.len() == narrow.len()
            &&& forall|i: int|
                0 <= i < wide.len() ==> is_widening(#[trigger] narrow[i], wide[i])
        },
{
    if wide.len() == narrow.len() && forall|i: int|
        0 <= i < wide.len() ==> is_widening(#[trigger] narrow[i], wide[i]) {
        assert forall|i: int| 0 <= i < narrow.len() implies is_widening(
            narrow[i],
            #[trigger] wide[i],
        ) by {
            assert(is_widening(narrow[i], wide[i]));
        }
    }
}

/// Samples are drawn, whatever was drawn before: the columns that were there stay. If there are
/// samples, what comes after them are the magnitudes of the Hann windows of 2048 samples, every 1024
/// samples, of the doubles that equal the samples; for whole chunks that is one column for each, and
/// one for each two in a row.
#[verifier::spinoff_prover]
pub proof fn law_samples_are_drawn_whatever_was_drawn_before(
    before: SpectrogramView,
    samples: Seq<u32>,
    after: SpectrogramView,
)
    requires
        is_drawn(before, samples, after),
    ensures
        ({
            let added = after.columns.skip(before.columns.len() as int);
            &&& after.frequencies == before.frequencies
            &&& after.columns == before.columns + added
            &&& samples.len() == 0 ==> added.len() == 0
            &&& samples.len() > 0 && samples.len() % 2048 == 0 ==> added.len() == 2 * (samples.len()
                / 2048) - 1
            &&& samples.len() > 0 ==> exists|
                waveform: Seq<SampleFormat>,
                frames: Seq<Seq<ComplexFormat>>,
            |
                {
                    &&& #[trigger] is_rstft(
                        waveform,
                        2048,
                        1024,
                        WindowType::Hanning,
                        frames,
                    )
                    &&& waveform.len() == samples.len()
                    &&& forall|i: int|
                        0 <= i < samples.len() ==> is_widening(samples[i], #[trigger] waveform[i])
                    &&& added.len() == frames.len()
                    &&& forall|i: int|
                        0 <= i < added.len() ==> (#[trigger] added[i]).len() == frames[i].len()
                            && exists|phases: Seq<SampleFormat>|
                            is_polar(frames[i], added[i], phases)
                }
        }),
{
    let added = after.columns.skip(before.columns.len() as int);
    lemma_default_sizes();
    assert(before.columns == after.columns.take(before.columns.len() as int));
    assert(after.columns == before.columns + added);
    if samples.len() > 0 {
        let waveform = choose|waveform: Seq<SampleFormat>| #[trigger]
            are_widened(samples, waveform) && is_analysis::<DefaultStftSettings>(waveform, added);
        law_windows_are_hann_windows::<DefaultStftSettings>(waveform, added);
        if samples.len() % 2048 == 0 {
            law_columns_of_chunks::<DefaultStftSettings>((samples.len() / 2048) as nat);
        }
    }
}

/// What a look at the ring buffer does, whatever was drawn before: it takes the oldest samples in
/// sight, in chunks of 2048, eight of them or as many as are there, and draws just those. What was
/// in sight stays in sight until it is taken, and all that is seen is what was put in.
#[verifier::spinoff_prover]
pub proof fn law_look_draws_what_it_takes(
    spec_before: SpectrogramView,
    before: Consumer,
    spec_after: SpectrogramView,
    after: Consumer,
    n_chunks: nat,
)
    requires
        is_polled(spec_before, before, spec_after, after, n_chunks),
    ensures
        ({
            let popped = consumer_taken(after).skip(consumer_taken(before).len() as int);
            let added = spec_after.columns.skip(spec_before.columns.len() as int);
            &&& consumer_taken(after) == consumer_taken(before) + popped
            &&& popped.len() == n_chunks * 2048
            &&& n_chunks <= 8
            &&& n_chunks == 8 || consumer_items(before).len() < (n_chunks + 1) * 2048
            &&& n_chunks == 0 ==> consumer_items(after).len() < 2048
            &&& n_chunks * 2048 + consumer_items(after).len() >= consumer_items(before).len()
            &&& n_chunks * 2048 + consumer_items(after).len() <= consumer_capacity(after)
            &&& (consumer_taken(before) + consumer_items(before)).is_prefix_of(
                consumer_taken(after) + consumer_items(after),
            )
            &&& (consumer_taken(after) + consumer_items(after)).is_prefix_of(consumer_stream(after))
            &&& consumer_stream(after) == consumer_stream(before)
            &&& consumer_capacity(after) == consumer_capacity(before)
            &&& spec_after.frequencies == spec_before.frequencies
            &&& spec_after.columns == spec_before.columns + added
            &&& added.len() == if n_chunks == 0 {
                0
            } else {
                2 * n_chunks - 1
            }
            &&& n_chunks > 0 ==> exists|
                waveform: Seq<SampleFormat>,
                frames: Seq<Seq<ComplexFormat>>,
            |
                {
                    &&& #[trigger] is_rstft(
                        waveform,
                        2048,
                        1024,
                        WindowType::Hanning,
                        frames,
                    )
                    &&& waveform.len() == popped.len()
                    &&& forall|i: int|
                        0 <= i < popped.len() ==> is_widening(popped[i], #[trigger] waveform[i])
                    &&& added.len() == frames.len()
                    &&& forall|i: int|
                        0 <= i < added.len() ==> (#[trigger] added[i]).len() == frames[i].len()
                            && exists|phases: Seq<SampleFormat>|
                            is_polar(frames[i], added[i], phases)
                }
        }),
{
    lemma_default_sizes();
    let (popped, occupied) = choose|popped: Seq<u32>, occupied: nat|
        #[trigger] is_poll(spec_before, before, spec_after, after, popped, occupied)
            && popped.len() == n_chunks * DefaultStftSettings::FFT_SIZE;
    assert(n_chunks * DefaultStftSettings::FFT_SIZE == n_chunks * 2048);
    assert(consumer_taken(after).skip(consumer_taken(before).len() as int) == popped);
    law_as_many_chunks_as_there_are(occupied, 2048);
    law_samples_are_drawn_whatever_was_drawn_before(spec_before, popped, spec_after);
}

/// The number of columns that looks which popped so much draw: for each that popped chunks, one for
/// each chunk and one for each two in a row.
pub open spec fn columns_drawn(popped: Seq<Seq<u32>>) -> int
    decreases popped.len(),
{
    if popped.len() == 0 {
        0
    } else if popped.last().len() == 0 {
        columns_drawn(popped.drop_last())
    } else {
        columns_drawn(popped.drop_last()) + 2 * (popped.last().len() / 2048) - 1
    }
}

/// All that is popped is drawn, over any number of looks. The spectrogram grows by the columns of
/// every look that popped something, however much it held before, and what was drawn stays.
#[verifier::spinoff_prover]
pub proof fn law_run_of_looks_draws_all_that_it_pops(
    specs: Seq<SpectrogramView>,
    consumers: Seq<Consumer>,
    popped: Seq<Seq<u32>>,
    occupied: Seq<nat>,
)
    requires
        are_polls(specs, consumers, popped, occupied),
    ensures
        specs.last().columns.len() == specs[0].columns.len() + columns_drawn(popped),
        specs[0].columns.is_prefix_of(specs.last().columns),
        specs.last().frequencies == specs[0].frequencies,
    decreases popped.len(),
{
    if popped.len() > 0 {
        let (s, c, p, o) = (
            specs.drop_last(),
            consumers.drop_last(),
            popped.drop_last(),
            occupied.drop_last(),
        );
        assert forall|i: int| 0 <= i < p.len() implies is_poll(
            s[i],
            c[i],
            s[i + 1],
            c[i + 1],
            #[trigger] p[i],
            o[i],
        ) by {
            assert(popped[i] == p[i]);
        }
        law_run_of_looks_draws_all_that_it_pops(s, c, p, o);
        let last = popped.len() - 1;
        assert(is_poll(
            specs[last],
            consumers[last],
            specs[last + 1],
            consumers[last + 1],
            popped[last],
            occupied[last],
        ));
        lemma_default_sizes();
        law_samples_are_drawn_whatever_was_drawn_before(
            specs[last],
            popped[last],
            specs[last + 1],
        );
        assert(specs[0].columns == s.last().columns.take(specs[0].columns.len() as int));
        assert(specs[0].columns == specs.last().columns.take(specs[0].columns.len() as int));
    }
}

/// The columns of each look of a run are those of its own part of what was put into the ring buffer,
/// which starts where the parts before it end.
#[verifier::spinoff_prover]
pub proof fn law_each_look_draws_its_part_of_the_stream(
    producer: Producer,
    specs: Seq<SpectrogramView>,
    consumers: Seq<Consumer>,
    popped: Seq<Seq<u32>>,
    occupied: Seq<nat>,
    look: int,
)
    requires
        are_polls(specs, consumers, popped, occupied),
        producer_stream(producer) == consumer_stream(consumers[0]),
        0 <= look < popped.len(),
    ensures
        ({
            let from = consumer_taken(consumers[0]).len() as int + popped.take(look).flatten().len();
            let part = producer_stream(producer).subrange(from, from + popped[look].len());
            let added = specs[look + 1].columns.skip(specs[look].columns.len() as int);
            &&& from + popped[look].len() <= producer_stream(producer).len()
            &&& popped[look] == part
            &&& specs[look + 1].columns == specs[look].columns + added
            &&& part.len() == 0 ==> added.len() == 0
            &&& part.len() > 0 ==> added.len() == 2 * (part.len() / 2048) - 1 && exists|
                waveform: Seq<SampleFormat>,
                frames: Seq<Seq<ComplexFormat>>,
            |
                {
                    &&& #[trigger] is_rstft(
                        waveform,
                        2048,
                        1024,
                        WindowType::Hanning,
                        frames,
                    )
                    &&& waveform.len() == part.len()
                    &&& forall|i: int|
                        0 <= i < part.len() ==> is_widening(part[i], #[trigger] waveform[i])
                    &&& added.len() == frames.len()
                    &&& forall|i: int|
                        0 <= i < added.len() ==> (#[trigger] added[i]).len() == frames[i].len()
                            && exists|phases: Seq<SampleFormat>|
                            is_polar(frames[i], added[i], phases)
                }
        }),
{
    lemma_default_sizes();
    let (s, c, p, o) = (
        specs.take(look + 1),
        consumers.take(look + 1),
        popped.take(look),
        occupied.take(look),
    );
    assert forall|i: int| 0 <= i < p.len() implies is_poll(
        s[i],
        c[i],
        s[i + 1],
        c[i + 1],
        #[trigger] p[i],
        o[i],
    ) by {
        assert(popped[i] == p[i]);
    }
    lemma_polls_take(s, c, p, o);
    let (before, after) = (consumers[look], consumers[look + 1]);
    assert(is_poll(specs[look], before, specs[look + 1], after, popped[look], occupied[look]));
    law_samples_are_drawn_whatever_was_drawn_before(specs[look], popped[look], specs[look + 1]);
    let stream = producer_stream(producer);
    let from = consumer_taken(consumers[0]).len() as int + p.flatten().len();
    let (taken, seen) = (consumer_taken(after), consumer_seen(after));
    assert(consumer_taken(before).len() == from);
    assert(seen == stream.take(seen.len() as int));
    assert forall|i: int| 0 <= i < popped[look].len() implies popped[look][i] == stream[from
        + i] by {
        assert(taken[from + i] == popped[look][i]);
        assert(seen[from + i] == taken[from + i]);
        assert(stream.take(seen.len() as int)[from + i] == stream[from + i]);
    }
    assert(popped[look] == stream.subrange(from, from + popped[look].len()));
}

/// The analysis ends just if the worker is found cancelled, waits for a tick just if it is found not
/// to be, and asks again just after a tick.
pub proof fn law_analysis_runs_until_cancelled(event: EntryEvent)
    ensures
        entry_action(event) is Stop <==> event == (EntryEvent::Checked { cancelled: true }),
        entry_action(event) is Tick <==> event == (EntryEvent::Checked { cancelled: false }),
        entry_action(event) is Check <==> event is Ticked,
{
}

/// A color keeps what the gradient gives for red, green and blue, and is opaque.
pub proof fn law_colors_are_those_of_the_gradient<G: Fn(SampleFormat) -> [u8; 4]>(
    gradient: G,
    magnitude: SampleFormat,
    color: Color32,
)
    requires
        is_color_of(gradient, magnitude, color),
    ensures
        color.a == 255,
        exists|rgba: [u8; 4]|
            #![trigger call_ensures(gradient, (magnitude,), rgba)]
            call_ensures(gradient, (magnitude,), rgba) && rgba@[0] == color.r && rgba@[1] == color.g
                && rgba@[2] == color.b,
{
}

/// The peak is one of the magnitudes. Where all are numbers, none of them is smaller than it, and
/// none before it is as small.
#[verifier::spinoff_prover]
pub proof fn law_peak_is_the_first_of_the_smallest(magnitudes: Seq<SampleFormat>)
    requires
        magnitudes.len() > 0,
    ensures
        magnitudes.contains(peak_of(magnitudes)),
        (forall|i: int|
            0 <= i < magnitudes.len() ==> (#[trigger] magnitudes[i]) % 0x8000_0000_0000_0000
                <= 0x7ff0_0000_0000_0000) ==> exists|at: int|
            {
                &&& 0 <= at < magnitudes.len()
                &&& #[trigger] magnitudes[at] == peak_of(magnitudes)
                &&& forall|j: int|
                    0 <= j < magnitudes.len() ==> at_least(#[trigger] magnitudes[j], magnitudes[at])
                &&& forall|j: int| 0 <= j < at ==> !at_least(magnitudes[at], #[trigger] magnitudes[j])
            },
    decreases magnitudes.len(),
{
    let numbers = forall|i: int|
        0 <= i < magnitudes.len() ==> (#[trigger] magnitudes[i]) % 0x8000_0000_0000_0000
            <= 0x7ff0_0000_0000_0000;
    assert forall|i: int| numbers && 0 <= i < magnitudes.len() implies !is_nan_64(
        #[trigger] magnitudes[i],
    ) by {
        law_no_number_past_infinity(0, magnitudes[i]);
    }
    let (rest, last) = (magnitudes.drop_last(), magnitudes.len() - 1);
    if rest.len() == 0 {
        assert(magnitudes[0] == peak_of(magnitudes));
        if numbers {
            assert(at_least(magnitudes[0], magnitudes[0]));
        }
    } else {
        law_peak_is_the_first_of_the_smallest(rest);
        let kept = choose|k: int| 0 <= k < rest.len() && rest[k] == peak_of(rest);
        assert(magnitudes[kept] == peak_of(rest));
        assert(magnitudes[last] == magnitudes.last());
        if numbers {
            assert forall|i: int| 0 <= i < rest.len() implies (#[trigger] rest[i])
                % 0x8000_0000_0000_0000 <= 0x7ff0_0000_0000_0000 by {
                assert(rest[i] == magnitudes[i]);
            }
            let at = choose|at: int|
                {
                    &&& 0 <= at < rest.len()
                    &&& #[trigger] rest[at] == peak_of(rest)
                    &&& forall|j: int|
                        0 <= j < rest.len() ==> at_least(#[trigger] rest[j], rest[at])
                    &&& forall|j: int| 0 <= j < at ==> !at_least(rest[at], #[trigger] rest[j])
                };
            let new_at = if at_least(magnitudes[last], rest[at]) {
                at
            } else {
                last
            };
            assert(magnitudes[new_at] == peak_of(magnitudes));
            assert forall|j: int| 0 <= j < magnitudes.len() implies at_least(
                #[trigger] magnitudes[j],
                magnitudes[new_at],
            ) by {
                if j < last {
                    assert(at_least(rest[j], rest[at]));
                    assert(rest[j] == magnitudes[j]);
                }
            }
            assert forall|j: int| 0 <= j < new_at implies !at_least(
                magnitudes[new_at],
                #[trigger] magnitudes[j],
            ) by {
                assert(rest[j] == magnitudes[j]);
                assert(at_least(rest[j], rest[at]));
            }
        }
    }
}

/// One more magnitude takes the place of the peak unless it is at least as large; so whatever is no
/// number takes it, and gives it up to the next.
pub proof fn law_peak_gives_way(magnitudes: Seq<SampleFormat>, next: SampleFormat)
    ensures
        peak_of(seq![next]) == next,
        magnitudes.len() > 0 && at_least(next, peak_of(magnitudes)) ==> peak_of(
            magnitudes.push(next),
        ) == peak_of(magnitudes),
        magnitudes.len() > 0 && !at_least(next, peak_of(magnitudes)) ==> peak_of(
            magnitudes.push(next),
        ) == next,
{
    assert(magnitudes.push(next).drop_last() == magnitudes);
}

/// Which magnitudes are numbers, and which is the first of the smallest.
pub proof fn law_first_smallest(magnitudes: Seq<SampleFormat>, p: SampleFormat)
    ensures
        are_numbers(magnitudes) <==> forall|i: int|
            0 <= i < magnitudes.len() ==> (#[trigger] magnitudes[i]) % 0x8000_0000_0000_0000
                <= 0x7ff0_0000_0000_0000,
        is_first_smallest(magnitudes, p) ==> magnitudes.contains(p) && forall|j: int|
            0 <= j < magnitudes.len() ==> at_least(#[trigger] magnitudes[j], p),
{
    assert forall|i: int| 0 <= i < magnitudes.len() implies (is_nan_64(#[trigger] magnitudes[i])
        <==> magnitudes[i] % 0x8000_0000_0000_0000 > 0x7ff0_0000_0000_0000) by {
        law_no_number_past_infinity(0, magnitudes[i]);
    }
}

} // verus!
