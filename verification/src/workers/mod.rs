//! The workers that run beside the user interface.

pub mod analysis;
pub mod audio;
pub mod capacity;
pub mod ring;
pub mod stream;
pub mod task;
