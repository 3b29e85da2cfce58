# sp_app

A live spectrogram. Samples are recorded from the default input device, pass through a ring buffer to
an analysis worker, and are turned into columns of frequency magnitudes.

- `src/` is the library, verified with Verus. The Fourier transforms come from `aus` and the ring
  buffer from `ringbuf`; both stand behind small wrappers whose contracts say what is relied on.
  Samples and magnitudes are held by the bits of their floating point numbers.
- `app/` is the program around it: the window, the audio host and the tasks that the workers run in.
  What it does next is decided by state machines of the library (`session`, `workers::stream`,
  `workers::audio`, `workers::analysis`, `ui`).
- `tests/` runs the library, with the real transforms and ring buffers.
