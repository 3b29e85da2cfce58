use sp_app::spectrogram::{analysis, magnitudes_of};
use sp_app::{
    DefaultStftSettings, FrequencyBins, Spectrogram, StftSettings, StftSettingsExt,
};

struct MySettings;

impl StftSettings for MySettings {
    const FFT_SIZE_EXPONENT: u8 = 11;
    const N_FFT_WINDOWS: usize = 4;
}

#[derive(Debug, Clone)]
struct Small;

impl StftSettings for Small {
    const FFT_SIZE_EXPONENT: u8 = 3;
}

#[derive(Debug)]
struct Tiny;

impl StftSettings for Tiny {
    const FFT_SIZE_EXPONENT: u8 = 0;
}

struct Large;

impl StftSettings for Large {
    const FFT_SIZE_EXPONENT: u8 = 23;
}

fn bits(samples: &[f64]) -> Vec<u64> {
    samples.iter().map(|s| s.to_bits()).collect()
}

fn wave(len: usize) -> Vec<f64> {
    (0..len).map(|i| (i as f64 * 0.37).sin() + 0.25).collect()
}

/// What `aus` makes of a waveform, in doubles all the way.
fn expected(samples: &[f64], fft_size: usize) -> Vec<Vec<u64>> {
    aus::spectrum::rstft(samples, fft_size, fft_size / 2, aus::WindowType::Hanning)
        .iter()
        .map(|frame| bits(&aus::spectrum::complex_to_polar_rfft(frame).0))
        .collect()
}

fn columns<T: StftSettings>(spec: &Spectrogram<T>) -> Vec<Vec<u64>> {
    spec.frequency_magnitudes_iter().map(|c| c.as_slice().to_vec()).collect()
}

#[test]
fn settings_example() {
    assert_eq!(MySettings::FFT_SIZE, 2048);
    assert_eq!(MySettings::CHUNK_SIZE, 2048 * 4);
}

#[test]
fn default_settings() {
    assert_eq!(DefaultStftSettings::FFT_SIZE, 2048);
    assert_eq!(DefaultStftSettings::HOP_SIZE, 1024);
    assert_eq!(DefaultStftSettings::CHUNK_SIZE, 2048);
    assert_eq!(Small::FFT_SIZE, 8);
    assert_eq!(Small::HOP_SIZE, 4);
    assert_eq!(Small::CHUNK_SIZE, 8);
}

#[test]
fn bins_are_evenly_spaced_from_zero_to_half_the_sample_rate() {
    let bins = FrequencyBins::<Small>::new(16);
    assert_eq!(bins.hz(), bits(&[0.0, 2.0, 4.0, 6.0, 8.0]).as_slice());

    let bins = FrequencyBins::<DefaultStftSettings>::new(44_000);
    assert_eq!(bins.hz().len(), 1025);
    assert_eq!(f64::from_bits(bins.hz()[1024]), 22_000.0);
}

#[test]
fn bins_with_long_products_are_exact() {
    let bins = FrequencyBins::<Large>::new(u32::MAX);
    let hz = |i: usize| f64::from_bits(bins.hz()[i]);
    assert_eq!(bins.hz().len(), (1 << 22) + 1);
    assert_eq!(hz(1 << 22), 2_147_483_647.5);
    assert_eq!(hz(3 << 20), 1_610_612_735.625);
    assert_eq!(hz(1), u32::MAX as f64 / 8_388_608.0);
}

#[test]
fn columns_depend_on_the_samples_alone() {
    let mut first = Spectrogram::<Small>::new(16);
    let mut second = Spectrogram::<Small>::new(48_000);
    second.push_samples(&bits(&wave(40)));
    let before = columns(&second).len();
    let samples: Vec<f64> = wave(24).iter().map(|s| s * 0.5 - 0.1).collect();
    assert_eq!(first.push_samples(&bits(&samples)), second.push_samples(&bits(&samples)));
    assert_eq!(columns(&first), columns(&second)[before..]);
}

#[test]
fn new_spectrogram_is_empty() {
    let spec = Spectrogram::<Small>::new(16);
    assert_eq!(spec.frequency_bins().hz(), bits(&[0.0, 2.0, 4.0, 6.0, 8.0]).as_slice());
    assert!(columns(&spec).is_empty());
    assert!(spec.column(0).is_none());
}

#[test]
fn columns_are_the_magnitudes_of_the_windows() {
    let samples = wave(24);
    let mut spec = Spectrogram::<Small>::new(16);
    assert_eq!(spec.push_samples(&bits(&samples)), 3);
    let columns = columns(&spec);
    assert_eq!(columns.len(), 5);
    assert_eq!(columns, expected(&samples, 8));
}

#[test]
fn constant_signal_shows_in_the_lowest_bin() {
    let columns = analysis::<Small>(&bits(&[1.0; 8]));
    assert_eq!(columns.len(), 1);
    let magnitudes: Vec<f64> = columns[0].as_slice().iter().map(|m| f64::from_bits(*m)).collect();
    // The weights of a Hann window of eight samples add up to half of seven.
    assert!((magnitudes[0] - 3.5).abs() < 1e-12);
    assert!(magnitudes[3] < 0.2 && magnitudes[4] < 0.2);
}

#[test]
fn silence_has_no_magnitude() {
    let columns = analysis::<Small>(&bits(&[0.0; 16]));
    assert_eq!(columns.len(), 3);
    for column in &columns {
        assert!(column.as_slice().iter().all(|m| f64::from_bits(*m) == 0.0));
    }
}

#[test]
fn returns_the_number_of_chunks() {
    let mut spec = Spectrogram::<DefaultStftSettings>::new(44_000);
    for (n_chunks, n_columns) in [(1, 1), (2, 3), (3, 5), (8, 15)] {
        let before = columns(&spec).len();
        assert_eq!(spec.push_samples(&bits(&wave(n_chunks * 2048))), n_chunks);
        assert_eq!(columns(&spec).len() - before, n_columns);
    }
}

#[test]
fn no_samples_give_one_silent_column() {
    let mut spec = Spectrogram::<Small>::new(16);
    assert_eq!(spec.push_samples(&[]), 0);
    assert_eq!(columns(&spec), expected(&[], 8));
    assert_eq!(columns(&spec).len(), 1);
}

#[test]
fn a_window_of_one_sample() {
    let mut spec = Spectrogram::<Tiny>::new(16);
    assert_eq!(spec.push_samples(&bits(&[0.5])), 1);
    assert_eq!(columns(&spec).len(), 1);
    assert_eq!(columns(&spec)[0].len(), 1);
}

#[test]
fn columns_are_only_added() {
    let (first, second) = (wave(16), wave(8));
    let mut spec = Spectrogram::<Small>::new(16);
    spec.push_samples(&bits(&first));
    let before = columns(&spec);
    spec.push_samples(&bits(&second));
    let after = columns(&spec);
    assert_eq!(after[..before.len()], before[..]);
    assert_eq!(after[before.len()..], expected(&second, 8)[..]);
    assert!(after.iter().all(|c| c.len() == spec.frequency_bins().hz().len()));
}

#[test]
fn slices_and_iterator_agree() {
    let mut spec = Spectrogram::<Small>::new(16);
    for _ in 0..5 {
        spec.push_samples(&bits(&wave(16)));
    }
    let (front, back) = spec.frequency_magnitudes();
    let slices: Vec<Vec<u64>> =
        front.iter().chain(back).map(|c| c.as_slice().to_vec()).collect();
    assert_eq!(slices, columns(&spec));
    for (i, column) in slices.iter().enumerate() {
        assert_eq!(spec.column(i).unwrap().as_slice(), column.as_slice());
    }
}

#[test]
fn clones_are_equal() {
    let mut spec = Spectrogram::<Small>::new(16);
    spec.push_samples(&bits(&wave(16)));
    let copy = spec.clone();
    assert_eq!(columns(&copy), columns(&spec));
    assert_eq!(copy.frequency_bins().hz(), spec.frequency_bins().hz());
    assert_eq!(copy.frequency_bins().clone().hz(), spec.frequency_bins().hz());
}

#[test]
fn given_frames_are_measured() {
    let frame = |numbers: &[(f64, f64)]| -> Vec<(u64, u64)> {
        numbers.iter().map(|(re, im)| (re.to_bits(), im.to_bits())).collect()
    };
    let frames = [frame(&[(3.0, 4.0), (0.0, -2.0)]), frame(&[]), frame(&[(-5.0, 12.0)])];
    let columns = magnitudes_of(&frames);
    assert_eq!(columns.len(), 3);
    assert_eq!(columns[0].as_slice(), bits(&[5.0, 2.0]).as_slice());
    assert!(columns[1].as_slice().is_empty());
    assert_eq!(columns[2].as_slice(), bits(&[13.0]).as_slice());
}

#[test]
fn magnitudes_are_not_negative() {
    for column in analysis::<Small>(&bits(&wave(16))) {
        assert!(column.as_slice().iter().all(|m| f64::from_bits(*m) >= 0.0));
    }
    let endless = magnitudes_of(&[vec![(f64::NEG_INFINITY.to_bits(), f64::NAN.to_bits())]]);
    assert!(f64::from_bits(endless[0].as_slice()[0]).is_nan());
}

#[test]
fn pushed_columns_come_last() {
    let mut spec = Spectrogram::<Small>::new(16);
    spec.push_samples(&bits(&wave(8)));
    let more = analysis::<Small>(&bits(&wave(16)));
    spec.push_columns(more);
    assert_eq!(columns(&spec).len(), 4);
    assert_eq!(columns(&spec)[1..], expected(&wave(16), 8)[..]);
}
