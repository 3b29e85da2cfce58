//! The Fourier transforms, which the `aus` crate computes.
//!
//! `aus` works on doubles. Here they are held by their bits, and each call turns bits into doubles
//! on the way in and doubles into bits on the way out.

use rustfft::num_complex::Complex;
use rustfft::num_traits::FromBytes;
use vstd::arithmetic::power2::pow2;
use vstd::prelude::*;

use crate::sample::{
    at_least, is_exact, is_nan_64, is_quotient, law_comparison_goes_by_bits,
    law_no_number_past_infinity, SampleFormat,
};
use crate::settings::is_fft_size;

verus! {

/// The shape that the samples of a window are weighted by.
#[derive(Debug, Clone, Copy, PartialEq, Eq, Structural)]
pub enum WindowType {
    Bartlett,
    Blackman,
    Hanning,
    Hamming,
    Rectangular,
}

/// One complex number of a spectrum: the bits of its real and of its imaginary part.
pub type ComplexFormat = (SampleFormat, SampleFormat);

/// The number of frequency bins of a real FFT.
pub open spec fn bin_count(fft_size: nat) -> nat {
    fft_size / 2 + 1
}

/// The number of windows that it takes to cover `samples` samples: the first, and one more for
/// every hop, whole or begun, by which the samples outreach the windows so far.
pub open spec fn window_count(samples: nat, fft_size: nat, hop_size: nat) -> nat {
    if samples <= fft_size {
        1
    } else {
        ((samples - fft_size + hop_size - 1) / (hop_size as int) + 1) as nat
    }
}

/// Whether a number is a power of two.
pub open spec fn is_power_of_two(n: nat) -> bool {
    exists|e: nat| #[trigger] pow2(e) == n
}

/// The frequencies that `aus::spectrum::rfftfreq` returns, by their bits.
pub uninterp spec fn rfft_frequencies(fft_size: usize, sample_rate: u32) -> Seq<SampleFormat>;

/// Whether some run of `aus::spectrum::rstft` on these arguments returns `frames`.
pub uninterp spec fn is_rstft(
    audio: Seq<SampleFormat>,
    fft_size: usize,
    hop_size: usize,
    window_type: WindowType,
    frames: Seq<Seq<ComplexFormat>>,
) -> bool;

/// Whether some run of `aus::spectrum::complex_to_polar_rfft` on `spectrum` returns `magnitudes`
/// and `phases`.
pub uninterp spec fn is_polar(
    spectrum: Seq<ComplexFormat>,
    magnitudes: Seq<SampleFormat>,
    phases: Seq<SampleFormat>,
) -> bool;

/// Whether a double can be a magnitude: it is no number, or not below zero.
pub open spec fn is_magnitude(bits: SampleFormat) -> bool {
    is_nan_64(bits) || at_least(bits, 0)
}

/// The sequences that a vector of vectors holds.
pub open spec fn frames_view(frames: Seq<Vec<ComplexFormat>>) -> Seq<Seq<ComplexFormat>> {
    frames.map_values(|frame: Vec<ComplexFormat>| frame@)
}

/// `aus::spectrum::rfftfreq`: the frequency of each bin of a real FFT, which is a quotient by the
/// FFT size. It is exact where that size is a power of two and the dividend has no more significant
/// bits than a double. How any other is rounded is left unsaid.
#[verifier::external_body]
pub(crate) fn rfftfreq(fft_size: usize, sample_rate: u32) -> (hz: Vec<SampleFormat>)
    requires
        fft_size >= 1,
        8 * bin_count(fft_size as nat) <= isize::MAX,
    ensures
        hz@ == rfft_frequencies(fft_size, sample_rate),
        hz@.len() == bin_count(fft_size as nat),
        hz@[0] == 0,
        is_power_of_two(fft_size as nat) ==> forall|i: int|
            0 <= i < hz@.len() && is_exact((sample_rate * i) as nat) ==> is_quotient(
                #[trigger] hz@[i],
                (sample_rate * i) as nat,
                fft_size as nat,
            ),
{
    aus::spectrum::rfftfreq(fft_size, sample_rate).into_iter().map(|hz| hz.to_bits()).collect()
}

/// `aus::spectrum::rstft`: the spectrum of each window of the audio, the last window filled up with
/// silence. The values rest on the machine's vector instructions and cosine, so the same arguments
/// may give results that differ in their last bits.
#[verifier::external_body]
pub(crate) fn rstft(
    audio: &[SampleFormat],
    fft_size: usize,
    hop_size: usize,
    window_type: WindowType,
) -> (frames: Vec<Vec<ComplexFormat>>)
    requires
        is_fft_size(fft_size as nat),
        hop_size > 0 || audio@.len() <= fft_size,
        hop_size <= fft_size,
    ensures
        is_rstft(audio@, fft_size, hop_size, window_type, frames_view(frames@)),
        frames@.len() == window_count(audio@.len(), fft_size as nat, hop_size as nat),
        forall|i: int|
            0 <= i < frames@.len() ==> (#[trigger] frames@[i])@.len() == bin_count(fft_size as nat),
{
    let samples: Vec<_> = audio.iter().map(|s| FromBytes::from_be_bytes(&s.to_be_bytes())).collect();
    let window_type = match window_type {
        WindowType::Bartlett => aus::WindowType::Bartlett,
        WindowType::Blackman => aus::WindowType::Blackman,
        WindowType::Hanning => aus::WindowType::Hanning,
        WindowType::Hamming => aus::WindowType::Hamming,
        WindowType::Rectangular => aus::WindowType::Rectangular,
    };
    aus::spectrum::rstft(&samples, fft_size, hop_size, window_type).into_iter().map(
        |frame| frame.into_iter().map(|c| (c.re.to_bits(), c.im.to_bits())).collect(),
    ).collect()
}

/// `aus::spectrum::complex_to_polar_rfft`: the magnitude and the phase of each number of a
/// spectrum. A magnitude is a square root, so it is not below zero if it is a number. The values
/// rest on the machine's power and arc tangent functions.
#[verifier::external_body]
pub(crate) fn complex_to_polar_rfft(spectrum: &[ComplexFormat]) -> (polar: (
    Vec<SampleFormat>,
    Vec<SampleFormat>,
))
    ensures
        is_polar(spectrum@, polar.0@, polar.1@),
        polar.0@.len() == spectrum@.len(),
        forall|i: int| 0 <= i < polar.0@.len() ==> is_magnitude(#[trigger] polar.0@[i]),
        polar.1@.len() == spectrum@.len(),
{
    let spectrum: Vec<_> = spectrum.iter().map(
        |c| Complex {
            re: FromBytes::from_be_bytes(&c.0.to_be_bytes()),
            im: FromBytes::from_be_bytes(&c.1.to_be_bytes()),
        },
    ).collect();
    let (magnitudes, phases) = aus::spectrum::complex_to_polar_rfft(&spectrum);
    (
        magnitudes.into_iter().map(|m| m.to_bits()).collect(),
        phases.into_iter().map(|p| p.to_bits()).collect(),
    )
}


/// Windows cover all of the samples, and no window is superfluous: without the last, some sample
/// would be in none. There is always one.
pub proof fn law_windows_cover_the_samples(samples: nat, fft_size: nat, hop_size: nat)
    requires
        hop_size > 0,
    ensures
        ({
            let windows = window_count(samples, fft_size, hop_size) as int;
            &&& windows >= 1
            &&& samples <= fft_size + (windows - 1) * hop_size
            &&& windows > 1 ==> fft_size + (windows - 2) * hop_size < samples
        }),
{
    let hop = hop_size as int;
    if samples > fft_size {
        let beyond = samples - fft_size + hop - 1;
        vstd::arithmetic::div_mod::lemma_fundamental_div_mod(beyond, hop);
        let q = beyond / hop;
        vstd::arithmetic::div_mod::lemma_div_pos_is_pos(beyond, hop);
        assert(hop * q == q * hop) by (nonlinear_arith);
        assert((q - 1) * hop == q * hop - hop) by (nonlinear_arith);
    } else {
        assert(0 * hop == 0);
    }
}

/// The bins of an FFT go up to half its size: there is one for each two of its samples, and one for
/// the frequency zero.
pub proof fn law_bins_go_up_to_half_the_fft_size(fft_size: nat)
    ensures
        2 * (bin_count(fft_size) - 1) <= fft_size < 2 * bin_count(fft_size),
{
}

/// A magnitude has no sign, unless it is a zero or no number.
pub proof fn law_magnitudes_have_no_sign(bits: SampleFormat)
    requires
        is_magnitude(bits),
    ensures
        bits <= 0x8000_0000_0000_0000 || bits % 0x8000_0000_0000_0000 > 0x7ff0_0000_0000_0000,
{
    law_no_number_past_infinity(0, bits);
    law_comparison_goes_by_bits(bits, 0);
    law_comparison_goes_by_bits(0, bits);
}

} // verus!
