//! The spectrogram, and the analysis that fills it.

use std::collections::vec_deque;
use std::collections::VecDeque;
use std::marker::PhantomData;

use vstd::arithmetic::power2::{lemma_pow2_pos, lemma_pow2_unfold, pow2};
use vstd::prelude::*;
use vstd::std_specs::iter::IteratorSpec;

use crate::sample::{
    is_exact, is_nan_64, is_quotient, lemma_scaled_is_exact, lemma_value_of_zero, scaled, value_64,
    SampleFormat, MAX_EXACT, UNITS_PER_ONE_EXPONENT,
};
use crate::settings::{
    bins_fit_memory, fits_memory, law_fft_size, law_hop_size, lemma_bins_fit_memory,
    lemma_fits_memory, StftSettings, StftSettingsExt,
};
use crate::spectrum::{
    bin_count, complex_to_polar_rfft, frames_view, is_magnitude, is_polar, is_rstft,
    rfft_frequencies, rfftfreq, rstft, window_count, ComplexFormat, WindowType,
};

verus! {

/// `VecDeque::as_slices`: two slices that hold, one after the other, what the deque holds.
#[verifier::external_body]
fn deque_slices<E>(deque: &VecDeque<E>) -> (slices: (&[E], &[E]))
    ensures
        slices.0@ + slices.1@ == deque@,
{
    deque.as_slices()
}

/// The frequency magnitudes of a particular timestep
#[derive(Debug)]
pub struct FrequencyMagnitudes(Vec<SampleFormat>);

impl View for FrequencyMagnitudes {
    type V = Seq<SampleFormat>;

    closed spec fn view(&self) -> Seq<SampleFormat> {
        self.0@
    }
}

impl Clone for FrequencyMagnitudes {
    fn clone(&self) -> (res: Self)
        ensures
            res@ == self@,
    {
        FrequencyMagnitudes(self.0.clone())
    }
}

impl FrequencyMagnitudes {
    /// The magnitude of each frequency bin.
    pub fn as_slice(&self) -> (magnitudes: &[SampleFormat])
        ensures
            magnitudes@ == self@,
    {
        self.0.as_slice()
    }
}

/// The "y axis" of the spectrogram. Represents the Hz value of each frequency
/// bin.
#[derive(Debug)]
pub struct FrequencyBins<T: StftSettings> {
    hz: Vec<SampleFormat>,
    _phantom: PhantomData<T>,
}

impl<T: StftSettings> View for FrequencyBins<T> {
    type V = Seq<SampleFormat>;

    closed spec fn view(&self) -> Seq<SampleFormat> {
        self.hz@
    }
}

impl<T: StftSettings> Clone for FrequencyBins<T> {
    fn clone(&self) -> (res: Self)
        ensures
            res@ == self@,
    {
        FrequencyBins { hz: self.hz.clone(), _phantom: PhantomData }
    }
}

/// Whether `hz` holds the frequency of each bin: the sample rate times the number of the bin over
/// the FFT size, where the product has no more significant bits than a double.
pub open spec fn are_bins(hz: Seq<SampleFormat>, fft_size: nat, sample_rate: u32) -> bool {
    &&& hz.len() == bin_count(fft_size)
    &&& hz[0] == 0
    &&& forall|i: int|
        0 <= i < hz.len() && is_exact((sample_rate * i) as nat) ==> is_quotient(
            #[trigger] hz[i],
            (sample_rate * i) as nat,
            fft_size,
        )
}

impl<T: StftSettings> FrequencyBins<T> {
    /// The bins of a stream of `sample_rate` samples per second.
    pub fn new(sample_rate: u32) -> (bins: Self)
        requires
            bins_fit_memory::<T>(),
        ensures
            bins@ == rfft_frequencies(T::FFT_SIZE, sample_rate),
            are_bins(bins@, T::FFT_SIZE as nat, sample_rate),
    {
        proof {
            lemma_bins_fit_memory::<T>();
            law_fft_size::<T>();
        }
        let hz = rfftfreq(T::FFT_SIZE, sample_rate);
        FrequencyBins { hz, _phantom: PhantomData }
    }

    /// Get the hz value of each bin
    pub fn hz(&self) -> (hz: &[SampleFormat])
        ensures
            hz@ == self@,
    {
        self.hz.as_slice()
    }
}

/// The columns that a sequence of timesteps holds.
pub open spec fn columns_view(columns: Seq<FrequencyMagnitudes>) -> Seq<Seq<SampleFormat>> {
    columns.map_values(|column: FrequencyMagnitudes| column@)
}

/// Whether `magnitudes` are what the numbers of `spectrum` measure: none of them is below zero.
pub open spec fn is_magnitudes(
    spectrum: Seq<ComplexFormat>,
    magnitudes: Seq<SampleFormat>,
) -> bool {
    &&& magnitudes.len() == spectrum.len()
    &&& exists|phases: Seq<SampleFormat>| is_polar(spectrum, magnitudes, phases)
    &&& forall|i: int| 0 <= i < magnitudes.len() ==> is_magnitude(#[trigger] magnitudes[i])
}

/// Whether `columns` are the magnitudes of `frames`, one column for each frame.
pub open spec fn are_magnitudes(
    frames: Seq<Seq<ComplexFormat>>,
    columns: Seq<Seq<SampleFormat>>,
) -> bool {
    &&& columns.len() == frames.len()
    &&& forall|i: int|
        0 <= i < frames.len() ==> is_magnitudes(frames[i], #[trigger] columns[i])
}

/// Whether `columns` are the magnitudes of the spectra of `waveform`: those of windows of
/// `T::FFT_SIZE` samples, weighted by a Hann window, that start every `T::HOP_SIZE` samples.
pub open spec fn is_analysis<T: StftSettings>(
    waveform: Seq<SampleFormat>,
    columns: Seq<Seq<SampleFormat>>,
) -> bool {
    exists|frames: Seq<Seq<ComplexFormat>>|
        is_rstft(waveform, T::FFT_SIZE, T::HOP_SIZE, WindowType::Hanning, frames)
            && #[trigger] are_magnitudes(frames, columns)
}

/// Whether a waveform of `len` samples can be analysed: it is made of whole chunks of `T::FFT_SIZE`
/// samples, and its windows move on.
pub open spec fn is_waveform_len<T: StftSettings>(len: nat) -> bool {
    &&& fits_memory::<T>()
    &&& len % (T::FFT_SIZE as nat) == 0
    &&& T::FFT_SIZE_EXPONENT > 0 || len <= T::FFT_SIZE
}

/// The magnitudes of each frame of a spectrum.
pub fn magnitudes_of(frames: &[Vec<ComplexFormat>]) -> (columns: Vec<FrequencyMagnitudes>)
    ensures
        are_magnitudes(frames_view(frames@), columns_view(columns@)),
{
    let mut columns: Vec<FrequencyMagnitudes> = Vec::new();
    for i in 0..frames.len()
        invariant
            columns@.len() == i,
            forall|j: int|
                0 <= j < i ==> is_magnitudes(frames@[j]@, (#[trigger] columns@[j])@),
    {
        let (magnitude_spectrum, _phase_spectrum) = complex_to_polar_rfft(frames[i].as_slice());
        assert(is_magnitudes(frames@[i as int]@, magnitude_spectrum@));
        columns.push(FrequencyMagnitudes(magnitude_spectrum));
    }
    columns
}

/// The magnitudes of each window of a waveform.
pub fn analysis<T: StftSettings>(waveform: &[SampleFormat]) -> (columns: Vec<FrequencyMagnitudes>)
    requires
        is_waveform_len::<T>(waveform@.len()),
    ensures
        is_analysis::<T>(waveform@, columns_view(columns@)),
        columns@.len() == window_count(waveform@.len(), T::FFT_SIZE as nat, T::HOP_SIZE as nat),
        forall|i: int|
            0 <= i < columns@.len() ==> (#[trigger] columns@[i])@.len() == bin_count(
                T::FFT_SIZE as nat,
            ),
{
    proof {
        lemma_fits_memory::<T>();
    }
    let frames = rstft(waveform, T::FFT_SIZE, T::HOP_SIZE, WindowType::Hanning);
    let columns = magnitudes_of(frames.as_slice());
    assert forall|i: int| 0 <= i < columns@.len() implies (#[trigger] columns@[i])@.len()
        == bin_count(T::FFT_SIZE as nat) by {
        assert(columns_view(columns@)[i].len() == frames_view(frames@)[i].len());
    }
    columns
}

/// What a spectrogram shows: the frequency of each row and the magnitudes of each column.
pub struct SpectrogramView {
    pub frequencies: Seq<SampleFormat>,
    pub columns: Seq<Seq<SampleFormat>>,
}

/// Whether a spectrogram has grown by the columns of a waveform of `n_chunks` chunks.
pub open spec fn is_push<T: StftSettings>(
    before: SpectrogramView,
    waveform: Seq<SampleFormat>,
    after: SpectrogramView,
    n_chunks: nat,
) -> bool {
    &&& n_chunks * T::FFT_SIZE == waveform.len()
    &&& after.frequencies == before.frequencies
    &&& after.columns.len() == before.columns.len() + window_count(
        waveform.len(),
        T::FFT_SIZE as nat,
        T::HOP_SIZE as nat,
    )
    &&& after.columns.take(before.columns.len() as int) == before.columns
    &&& is_analysis::<T>(waveform, after.columns.skip(before.columns.len() as int))
}

/// A Spectrogram can be thought of as an image: its y axis is [`Self::frequency_bins`],
/// its x axis is time, and its pixel values are [`Self::frequency_magnitudes`].
#[derive(Debug)]
pub struct Spectrogram<T: StftSettings> {
    freqs: FrequencyBins<T>,
    magnitudes: VecDeque<FrequencyMagnitudes>,
}

impl<T: StftSettings> View for Spectrogram<T> {
    type V = SpectrogramView;

    closed spec fn view(&self) -> SpectrogramView {
        SpectrogramView {
            frequencies: self.freqs@,
            columns: columns_view(self.magnitudes@),
        }
    }
}

impl<T: StftSettings> Clone for Spectrogram<T> {
    fn clone(&self) -> (res: Self)
        ensures
            res@ == self@,
    {
        let magnitudes = self.magnitudes.clone();
        assert forall|i: int| 0 <= i < magnitudes@.len() implies #[trigger] magnitudes@[i]@
            == self.magnitudes@[i]@ by {
            assert(cloned::<FrequencyMagnitudes>(self.magnitudes@[i], magnitudes@[i]));
        }
        assert(columns_view(magnitudes@) == columns_view(self.magnitudes@));
        Spectrogram { freqs: self.freqs.clone(), magnitudes }
    }
}

impl<T: StftSettings> Spectrogram<T> {
    /// Every column has a magnitude for each frequency bin.
    pub open spec fn well_formed(&self) -> bool {
        &&& self@.frequencies.len() == bin_count(T::FFT_SIZE as nat)
        &&& forall|i: int|
            0 <= i < self@.columns.len() ==> (#[trigger] self@.columns[i]).len()
                == self@.frequencies.len()
    }

    /// A spectrogram without columns.
    pub fn new(sample_rate: u32) -> (spec: Self)
        requires
            bins_fit_memory::<T>(),
        ensures
            spec.well_formed(),
            spec@.frequencies == rfft_frequencies(T::FFT_SIZE, sample_rate),
            are_bins(spec@.frequencies, T::FFT_SIZE as nat, sample_rate),
            spec@.columns == Seq::<Seq<SampleFormat>>::empty(),
    {
        let freqs = FrequencyBins::new(sample_rate);
        Spectrogram { freqs, magnitudes: VecDeque::new() }
    }

    /// The frequency of each row.
    pub fn frequency_bins(&self) -> (bins: &FrequencyBins<T>)
        ensures
            bins@ == self@.frequencies,
    {
        &self.freqs
    }

    /// Array index corresponds to each timestep of the STFT. Two slices are returned since
    /// they are non-contiguous due to the inner VecDeque.
    pub fn frequency_magnitudes(&self) -> (slices: (
        &[FrequencyMagnitudes],
        &[FrequencyMagnitudes],
    ))
        ensures
            columns_view(slices.0@ + slices.1@) == self@.columns,
    {
        deque_slices(&self.magnitudes)
    }

    /// Iterates over each timestep of the STFT.
    pub fn frequency_magnitudes_iter(&self) -> (timesteps: vec_deque::Iter<'_, FrequencyMagnitudes>)
        ensures
            timesteps.remaining().len() == self@.columns.len(),
            forall|i: int|
                0 <= i < self@.columns.len() ==> (#[trigger] timesteps.remaining()[i])@
                    == self@.columns[i],
    {
        self.magnitudes.iter()
    }

    /// The timestep at `column_index`, if there is one.
    pub fn column(&self, column_index: usize) -> (column: Option<&FrequencyMagnitudes>)
        ensures
            column is Some <==> column_index < self@.columns.len(),
            column matches Some(c) ==> c@ == self@.columns[column_index as int],
    {
        if column_index < self.magnitudes.len() {
            Some(&self.magnitudes[column_index])
        } else {
            None
        }
    }

    /// Appends a column for each of the given timesteps.
    pub fn push_columns(&mut self, columns: Vec<FrequencyMagnitudes>)
        requires
            old(self).well_formed(),
            forall|i: int|
                0 <= i < columns@.len() ==> (#[trigger] columns@[i])@.len()
                    == old(self)@.frequencies.len(),
        ensures
            final(self).well_formed(),
            final(self)@.frequencies == old(self)@.frequencies,
            final(self)@.columns == old(self)@.columns + columns_view(columns@),
    {
        let ghost before = self.magnitudes@;
        for column in it: columns
            invariant
                self.freqs == old(self).freqs,
                self.magnitudes@ == before + it.seq().take(it.index()),
                it.seq() == columns@,
        {
            assert(it.seq().take(it.index() + 1) == it.seq().take(it.index()).push(column));
            self.magnitudes.push_back(column);
        }
        let ghost (kept, added) = (columns_view(before), columns_view(columns@));
        assert(columns_view(before + columns@) == kept + added);
        assert forall|i: int| 0 <= i < self@.columns.len() implies (
        #[trigger] self@.columns[i]).len() == self@.frequencies.len() by {
            if i < kept.len() {
                assert(self@.columns[i] == old(self)@.columns[i]);
            } else {
                assert(self@.columns[i] == columns@[i - kept.len()]@);
            }
        }
    }

    /// Appends the columns of a waveform, whose length must be a multiple of `T::FFT_SIZE`.
    ///
    /// Returns the number of chunks of size `T::FFT_SIZE` processed.
    pub fn push_samples(&mut self, waveform_samples: &[SampleFormat]) -> (n_chunks: usize)
        requires
            old(self).well_formed(),
            is_waveform_len::<T>(waveform_samples@.len()),
        ensures
            final(self).well_formed(),
            is_push::<T>(old(self)@, waveform_samples@, final(self)@, n_chunks as nat),
    {
        let columns = analysis::<T>(waveform_samples);
        let ghost added = columns_view(columns@);
        self.push_columns(columns);
        assert(self@.columns.take(old(self)@.columns.len() as int) == old(self)@.columns);
        assert(self@.columns.skip(old(self)@.columns.len() as int) == added);
        proof {
            lemma_fits_memory::<T>();
            vstd::arithmetic::div_mod::lemma_fundamental_div_mod(
                waveform_samples@.len() as int,
                T::FFT_SIZE as int,
            );
            vstd::arithmetic::mul::lemma_mul_is_commutative(
                T::FFT_SIZE as int,
                waveform_samples@.len() as int / T::FFT_SIZE as int,
            );
        }
        waveform_samples.len() / T::FFT_SIZE
    }
}

/// The frequencies of the bins rise evenly, from zero to half the sample rate: each one that a
/// double can hold is as far above another as it is bins away. Where the FFT size times the sample
/// rate is small enough, that is all of them.
pub proof fn law_bins_rise_to_half_the_sample_rate(
    hz: Seq<SampleFormat>,
    fft_size_exponent: nat,
    sample_rate: u32,
)
    requires
        are_bins(hz, pow2(fft_size_exponent), sample_rate),
        fft_size_exponent > 0,
        sample_rate > 0,
    ensures
        value_64(hz[0]) == 0,
        is_quotient(hz.last(), sample_rate as nat, 2),
        forall|i: int, j: int|
            #![trigger hz[i], hz[j]]
            0 <= i < j < hz.len() && is_exact((sample_rate * i) as nat) && is_exact(
                (sample_rate * j) as nat,
            ) ==> {
                &&& value_64(hz[i]) < value_64(hz[j])
                &&& (value_64(hz[j]) - value_64(hz[i])) * pow2(fft_size_exponent) == (sample_rate
                    * (j - i)) * pow2(UNITS_PER_ONE_EXPONENT as nat)
            },
        sample_rate * pow2(fft_size_exponent) <= 2 * MAX_EXACT ==> forall|i: int|
            0 <= i < hz.len() ==> #[trigger] is_exact((sample_rate * i) as nat),
{
    let (rate, fft) = (sample_rate as int, pow2(fft_size_exponent) as int);
    let one = pow2(UNITS_PER_ONE_EXPONENT as nat) as int;
    let half_exponent = (fft_size_exponent - 1) as nat;
    let half = pow2(half_exponent) as int;
    lemma_pow2_pos(UNITS_PER_ONE_EXPONENT as nat);
    lemma_pow2_unfold(fft_size_exponent);
    lemma_pow2_pos(half_exponent);
    lemma_value_of_zero();
    lemma_scaled_is_exact(sample_rate as nat, half_exponent);
    assert(is_quotient(hz[half], (sample_rate * half) as nat, pow2(fft_size_exponent)));
    let last = value_64(hz[half]);
    assert(last * 2 == rate * one) by (nonlinear_arith)
        requires
            last * fft == (rate * half) * one,
            fft == 2 * half,
            half > 0,
    ;
    assert forall|i: int, j: int|
        #![trigger hz[i], hz[j]]
        0 <= i < j < hz.len() && is_exact((sample_rate * i) as nat) && is_exact(
            (sample_rate * j) as nat,
        ) implies {
        &&& value_64(hz[i]) < value_64(hz[j])
        &&& (value_64(hz[j]) - value_64(hz[i])) * fft == (rate * (j - i)) * one
    } by {
        let (vi, vj) = (value_64(hz[i]), value_64(hz[j]));
        assert(rate * i >= 0 && rate * j >= 0) by (nonlinear_arith)
            requires
                rate > 0,
                0 <= i < j,
        ;
        assert(is_quotient(hz[i], (sample_rate * i) as nat, pow2(fft_size_exponent)));
        assert(is_quotient(hz[j], (sample_rate * j) as nat, pow2(fft_size_exponent)));
        assert((vj - vi) * fft == (rate * (j - i)) * one) by (nonlinear_arith)
            requires
                vi * fft == (rate * i) * one,
                vj * fft == (rate * j) * one,
        ;
        assert(vi < vj) by (nonlinear_arith)
            requires
                (vj - vi) * fft == (rate * (j - i)) * one,
                i < j,
                rate > 0,
                one > 0,
                fft > 0,
        ;
    }
    if rate * fft <= 2 * MAX_EXACT {
        assert forall|i: int| 0 <= i < hz.len() implies #[trigger] is_exact(
            (sample_rate * i) as nat,
        ) by {
            assert(0 <= rate * i <= MAX_EXACT) by (nonlinear_arith)
                requires
                    0 <= i,
                    2 * i <= fft,
                    rate * fft <= 2 * MAX_EXACT,
                    rate > 0,
            ;
            lemma_scaled_is_exact((sample_rate * i) as nat, 0);
        }
    }
}

/// The columns of a waveform depend on its samples alone, not on the sample rate or on what was
/// drawn before: pushed to two spectrograms, it makes as many chunks and as many columns in the one
/// as in the other, and the columns that came out in the one can come out in the other.
pub proof fn law_columns_depend_on_samples_alone<T: StftSettings>(
    waveform: Seq<SampleFormat>,
    befores: (SpectrogramView, SpectrogramView),
    afters: (SpectrogramView, SpectrogramView),
    n_chunks: (nat, nat),
)
    requires
        is_waveform_len::<T>(waveform.len()),
        is_push::<T>(befores.0, waveform, afters.0, n_chunks.0),
        is_push::<T>(befores.1, waveform, afters.1, n_chunks.1),
    ensures
        n_chunks.0 == n_chunks.1,
        afters.0.columns.len() - befores.0.columns.len() == afters.1.columns.len()
            - befores.1.columns.len(),
        ({
            let new_columns = afters.0.columns.skip(befores.0.columns.len() as int);
            let after = SpectrogramView {
                frequencies: befores.1.frequencies,
                columns: befores.1.columns + new_columns,
            };
            is_push::<T>(befores.1, waveform, after, n_chunks.1)
        }),
{
    lemma_fits_memory::<T>();
    let (n, m, fft) = (n_chunks.0 as int, n_chunks.1 as int, T::FFT_SIZE as int);
    assert(n == m) by (nonlinear_arith)
        requires
            n * fft == m * fft,
            fft > 0,
    ;
    let new_columns = afters.0.columns.skip(befores.0.columns.len() as int);
    let kept = befores.1.columns;
    assert((kept + new_columns).take(kept.len() as int) == kept);
    assert((kept + new_columns).skip(kept.len() as int) == new_columns);
}

/// A spectrogram never has 0 frequency bins, and none of its columns is empty.
pub proof fn law_columns_are_never_empty<T: StftSettings>(spec: Spectrogram<T>, column: int)
    requires
        spec.well_formed(),
        0 <= column < spec@.columns.len(),
    ensures
        spec@.frequencies.len() > 0,
        spec@.columns[column].len() > 0,
{
}

/// What is drawn of a waveform is never below zero.
pub proof fn law_magnitudes_are_not_negative<T: StftSettings>(
    waveform: Seq<SampleFormat>,
    columns: Seq<Seq<SampleFormat>>,
    column: int,
    row: int,
)
    requires
        is_analysis::<T>(waveform, columns),
        0 <= column < columns.len(),
        0 <= row < columns[column].len(),
    ensures
        is_nan_64(columns[column][row]) || value_64(columns[column][row]) >= 0,
{
    let frames = choose|frames: Seq<Seq<ComplexFormat>>|
        is_rstft(waveform, T::FFT_SIZE, T::HOP_SIZE, WindowType::Hanning, frames)
            && #[trigger] are_magnitudes(frames, columns);
    assert(is_magnitudes(frames[column], columns[column]));
    assert(is_magnitude(columns[column][row]));
    assert(value_64(0) == 0) by {
        lemma_value_of_zero();
    }
}

/// A waveform of whole chunks gets a column for each chunk, and one for each two chunks in a row,
/// whose window lies half in the one and half in the other. One without samples gets one column.
pub proof fn law_columns_of_chunks<T: StftSettings>(n_chunks: nat)
    requires
        0 < T::FFT_SIZE_EXPONENT < usize::BITS,
    ensures
        n_chunks > 0 ==> window_count(
            n_chunks * T::FFT_SIZE as nat,
            T::FFT_SIZE as nat,
            T::HOP_SIZE as nat,
        ) == 2 * n_chunks - 1,
        window_count(0, T::FFT_SIZE as nat, T::HOP_SIZE as nat) == 1,
{
    law_fft_size::<T>();
    law_hop_size::<T>();
    lemma_pow2_unfold(T::FFT_SIZE_EXPONENT as nat);
    lemma_pow2_pos((T::FFT_SIZE_EXPONENT - 1) as nat);
    let (fft, hop) = (T::FFT_SIZE as int, T::HOP_SIZE as int);
    assert(fft == 2 * hop && hop > 0);
    if n_chunks > 1 {
        let n = n_chunks as int;
        assert(n * fft > fft) by (nonlinear_arith)
            requires
                n > 1,
                fft > 0,
        ;
        assert(n * fft - fft + hop - 1 == (2 * n - 2) * hop + (hop - 1)) by (nonlinear_arith)
            requires
                fft == 2 * hop,
        ;
        vstd::arithmetic::div_mod::lemma_fundamental_div_mod_converse(
            n * fft - fft + hop - 1,
            hop,
            2 * n - 2,
            hop - 1,
        );
    } else if n_chunks == 1 {
        assert(1 * fft == fft);
    }
}


/// Whatever the FFT size, the columns of a waveform are the magnitudes of its windows of
/// `T::FFT_SIZE` samples, every `T::HOP_SIZE` samples, each weighted by a Hann window: there is a
/// column for each spectrum of the transform, and it holds the magnitude of each of its numbers.
#[verifier::spinoff_prover]
pub proof fn law_windows_are_hann_windows<T: StftSettings>(
    waveform: Seq<SampleFormat>,
    columns: Seq<Seq<SampleFormat>>,
)
    requires
        is_analysis::<T>(waveform, columns),
    ensures
        exists|frames: Seq<Seq<ComplexFormat>>|
            {
                &&& #[trigger] is_rstft(
                    waveform,
                    T::FFT_SIZE,
                    T::HOP_SIZE,
                    WindowType::Hanning,
                    frames,
                )
                &&& columns.len() == frames.len()
                &&& forall|i: int|
                    0 <= i < columns.len() ==> (#[trigger] columns[i]).len() == frames[i].len()
                        && exists|phases: Seq<SampleFormat>| is_polar(frames[i], columns[i], phases)
            },
{
    let frames = choose|frames: Seq<Seq<ComplexFormat>>|
        is_rstft(waveform, T::FFT_SIZE, T::HOP_SIZE, WindowType::Hanning, frames)
            && #[trigger] are_magnitudes(frames, columns);
    assert forall|i: int| 0 <= i < columns.len() implies (#[trigger] columns[i]).len()
        == frames[i].len() && exists|phases: Seq<SampleFormat>|
        is_polar(frames[i], columns[i], phases) by {
        assert(is_magnitudes(frames[i], columns[i]));
    }
}

/// The columns of given spectra hold the magnitude of each of their numbers, in order.
#[verifier::spinoff_prover]
pub proof fn law_columns_measure_their_spectra(
    frames: Seq<Seq<ComplexFormat>>,
    columns: Seq<Seq<SampleFormat>>,
)
    requires
        are_magnitudes(frames, columns),
    ensures
        columns.len() == frames.len(),
        forall|i: int|
            0 <= i < columns.len() ==> (#[trigger] columns[i]).len() == frames[i].len()
                && exists|phases: Seq<SampleFormat>| is_polar(frames[i], columns[i], phases),
{
    assert forall|i: int| 0 <= i < columns.len() implies (#[trigger] columns[i]).len()
        == frames[i].len() && exists|phases: Seq<SampleFormat>|
        is_polar(frames[i], columns[i], phases) by {
        assert(is_magnitudes(frames[i], columns[i]));
    }
}

/// Pushed samples are drawn, whatever was drawn before: the columns that were there stay, and after
/// them come those of the Hann windows of the samples, one for each chunk and one for each two
/// chunks in a row.
#[verifier::spinoff_prover]
pub proof fn law_pushed_samples_are_drawn<T: StftSettings>(
    before: SpectrogramView,
    waveform: Seq<SampleFormat>,
    after: SpectrogramView,
    n_chunks: nat,
)
    requires
        0 < T::FFT_SIZE_EXPONENT < usize::BITS,
        is_push::<T>(before, waveform, after, n_chunks),
    ensures
        ({
            let added = after.columns.skip(before.columns.len() as int);
            &&& n_chunks * T::FFT_SIZE == waveform.len()
            &&& after.frequencies == before.frequencies
            &&& after.columns == before.columns + added
            &&& added.len() == if n_chunks == 0 {
                1
            } else {
                2 * n_chunks - 1
            }
            &&& exists|frames: Seq<Seq<ComplexFormat>>|
                {
                    &&& #[trigger] is_rstft(
                        waveform,
                        T::FFT_SIZE,
                        T::HOP_SIZE,
                        WindowType::Hanning,
                        frames,
                    )
                    &&& added.len() == frames.len()
                    &&& forall|i: int|
                        0 <= i < added.len() ==> (#[trigger] added[i]).len() == frames[i].len()
                            && exists|phases: Seq<SampleFormat>|
                            is_polar(frames[i], added[i], phases)
                }
        }),
{
    let added = after.columns.skip(before.columns.len() as int);
    law_columns_of_chunks::<T>(n_chunks);
    law_windows_are_hann_windows::<T>(waveform, added);
    assert(after.columns == after.columns.take(before.columns.len() as int) + added);
    if n_chunks == 0 {
        assert(0 * T::FFT_SIZE == 0);
    }
}

/// Every waveform of whole chunks can be analysed, as long as its windows move on and fit in memory.
pub proof fn law_whole_chunks_can_be_analysed<T: StftSettings>(n_chunks: nat)
    requires
        T::FFT_SIZE_EXPONENT <= usize::BITS - 6,
        T::FFT_SIZE_EXPONENT > 0 || n_chunks <= 1,
    ensures
        is_waveform_len::<T>(n_chunks * T::FFT_SIZE as nat),
{
    lemma_fits_memory::<T>();
    let (n, fft) = (n_chunks as int, T::FFT_SIZE as int);
    vstd::arithmetic::div_mod::lemma_mod_multiples_basic(n, fft);
    if T::FFT_SIZE_EXPONENT == 0 {
        assert(n * fft <= fft) by (nonlinear_arith)
            requires
                n <= 1,
                fft > 0,
        ;
    }
}

/// Every column of a spectrogram has a row for each of its frequencies, and these are those of an
/// FFT of the settings.
pub proof fn law_columns_have_all_rows<T: StftSettings>(spec: Spectrogram<T>, column: int)
    requires
        spec.well_formed(),
        0 <= column < spec@.columns.len(),
    ensures
        spec@.columns[column].len() == spec@.frequencies.len(),
        spec@.frequencies.len() == T::FFT_SIZE / 2 + 1,
{
}

/// A column is seen as the magnitudes that it holds, and a frame as its numbers.
pub proof fn law_columns_are_seen_one_by_one(
    columns: Seq<FrequencyMagnitudes>,
    frames: Seq<Vec<ComplexFormat>>,
)
    ensures
        columns_view(columns).len() == columns.len(),
        forall|i: int|
            0 <= i < columns.len() ==> #[trigger] columns_view(columns)[i] == columns[i]@,
        frames_view(frames).len() == frames.len(),
        forall|i: int| 0 <= i < frames.len() ==> #[trigger] frames_view(frames)[i] == frames[i]@,
{
}

} // verus!
