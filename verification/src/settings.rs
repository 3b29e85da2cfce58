//! The settings of the short time Fourier transform.

use vstd::arithmetic::power2::{
    lemma2_to64, lemma2_to64_rest, lemma_pow2_adds, lemma_pow2_pos, lemma_pow2_strictly_increases,
    lemma_pow2_unfold, pow2,
};
use vstd::prelude::*;

use crate::private::Sealed;

verus! {

/// The short time fourier transform (STFT) settings.
///
/// # Example
/// ```
/// use sp_app::{StftSettings, StftSettingsExt};
///
/// struct MySettings;
/// impl StftSettings for MySettings {
///     const FFT_SIZE_EXPONENT: u8 = 11;
///     const N_FFT_WINDOWS: usize = 4;
/// }
///
/// assert_eq!(MySettings::FFT_SIZE, 2048);
/// assert_eq!(MySettings::CHUNK_SIZE, 2048 * 4);
/// ```
pub trait StftSettings {
    /// The base 2 logarithm of the FFT size.
    const FFT_SIZE_EXPONENT: u8;

    /// The number of FFT sized windows in a chunk.
    const N_FFT_WINDOWS: usize = 1;
}

/// Additional settings computed from [`StftSettings`].
pub trait StftSettingsExt: StftSettings + Sealed {
    /// The number of samples in one FFT.
    const FFT_SIZE: usize;

    /// The number of samples from the start of one window to the start of the next.
    const HOP_SIZE: usize;

    /// The number of samples in a chunk.
    const CHUNK_SIZE: usize;
}

impl<T: StftSettings> StftSettingsExt for T {
    const FFT_SIZE: usize = 1usize << Self::FFT_SIZE_EXPONENT as usize;

    const HOP_SIZE: usize = Self::FFT_SIZE / 2;

    const CHUNK_SIZE: usize = Self::FFT_SIZE * Self::N_FFT_WINDOWS;
}

/// The settings that the application runs with.
#[derive(Debug, Clone, Copy)]
pub struct DefaultStftSettings;

impl StftSettings for DefaultStftSettings {
    const FFT_SIZE_EXPONENT: u8 = 11;

    const N_FFT_WINDOWS: usize = 1;
}

/// Whether a transform of `fft_size` samples fits in memory: 16 bytes a sample can be asked for.
pub open spec fn is_fft_size(fft_size: nat) -> bool {
    1 <= fft_size && 16 * fft_size <= isize::MAX
}

/// Whether a transform with these settings fits in memory.
pub open spec fn fits_memory<T: StftSettings>() -> bool {
    T::FFT_SIZE_EXPONENT + 6 <= usize::BITS
}

/// The exponents that fit in memory are those whose FFT size does.
pub proof fn lemma_fits_memory<T: StftSettings>()
    requires
        fits_memory::<T>(),
    ensures
        is_fft_size(T::FFT_SIZE as nat),
        T::HOP_SIZE <= T::FFT_SIZE,
        T::HOP_SIZE == 0 <==> T::FFT_SIZE_EXPONENT == 0,
{
    law_fft_size::<T>();
    law_hop_size::<T>();
    lemma2_to64();
    lemma2_to64_rest();
    let e = T::FFT_SIZE_EXPONENT as nat;
    lemma_pow2_adds(4, e);
    lemma_pow2_pos(e);
    if e + 4 < usize::BITS - 2 {
        lemma_pow2_strictly_increases(e + 4, (usize::BITS - 2) as nat);
    }
    if e > 0 {
        lemma_pow2_unfold(e);
        lemma_pow2_pos((e - 1) as nat);
    }
}

/// Whether the frequency bins of these settings fit in memory: 8 bytes a bin can be asked for.
pub open spec fn bins_fit_memory<T: StftSettings>() -> bool {
    T::FFT_SIZE_EXPONENT + 4 <= usize::BITS
}

/// The exponents whose bins fit in memory are those with room for half the FFT size and one more.
pub proof fn lemma_bins_fit_memory<T: StftSettings>()
    requires
        bins_fit_memory::<T>(),
    ensures
        T::FFT_SIZE >= 1,
        8 * (T::FFT_SIZE / 2 + 1) <= isize::MAX,
{
    law_fft_size::<T>();
    lemma2_to64();
    lemma2_to64_rest();
    let e = T::FFT_SIZE_EXPONENT as nat;
    lemma_pow2_adds(2, e);
    lemma_pow2_pos(e);
    if e + 2 < usize::BITS - 2 {
        lemma_pow2_strictly_increases(e + 2, (usize::BITS - 2) as nat);
    }
}

/// The FFT size is two to the power of its exponent, where that fits into memory at all.
pub proof fn law_fft_size<T: StftSettings>()
    requires
        T::FFT_SIZE_EXPONENT < usize::BITS,
    ensures
        T::FFT_SIZE == pow2(T::FFT_SIZE_EXPONENT as nat),
{
    let e = T::FFT_SIZE_EXPONENT as usize;
    vstd::bits::lemma_usize_pow2_no_overflow(e as nat);
    vstd::bits::lemma_usize_shl_is_mul(1, e);
}

/// Windows overlap by half.
pub proof fn law_hop_size<T: StftSettings>()
    ensures
        T::HOP_SIZE == T::FFT_SIZE / 2,
{
}

/// A chunk is made of `N_FFT_WINDOWS` windows.
pub proof fn law_chunk_size<T: StftSettings>()
    requires
        T::FFT_SIZE * T::N_FFT_WINDOWS <= usize::MAX,
    ensures
        T::CHUNK_SIZE == T::FFT_SIZE * T::N_FFT_WINDOWS,
{
}

/// The sizes that the application runs with.
pub proof fn lemma_default_sizes()
    ensures
        DefaultStftSettings::FFT_SIZE_EXPONENT == 11,
        fits_memory::<DefaultStftSettings>(),
        DefaultStftSettings::FFT_SIZE == 2048,
        DefaultStftSettings::HOP_SIZE == 1024,
        DefaultStftSettings::CHUNK_SIZE == 2048,
{
    assert(1usize << 11usize == 2048) by (bit_vector);
}


/// What fits in memory: a transform takes four bits of an address for a sample, and two are kept
/// free; bins take two bits less.
pub proof fn law_sizes_that_fit<T: StftSettings>()
    ensures
        fits_memory::<T>() <==> T::FFT_SIZE_EXPONENT as int <= usize::BITS - 6,
        bins_fit_memory::<T>() <==> T::FFT_SIZE_EXPONENT as int <= usize::BITS - 4,
{
}

} // verus!
