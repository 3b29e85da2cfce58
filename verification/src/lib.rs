//! A live spectrogram: samples are taken off an audio stream, cut into overlapping windows, and
//! turned into columns of frequency magnitudes.

mod private;
pub mod sample;
pub mod session;
pub mod settings;
pub mod spectrogram;
pub mod spectrum;
pub mod time;
pub mod ui;
pub mod workers;

pub use sample::SampleFormat;
pub use settings::{DefaultStftSettings, StftSettings, StftSettingsExt};
pub use spectrogram::{FrequencyBins, FrequencyMagnitudes, Spectrogram};
