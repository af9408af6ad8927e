//! Real-time pitch-to-MIDI note decision pipeline.
//!
//! The library holds the logic of the pipeline: the smoothing filter over
//! recently accepted notes, the per-buffer note decision engine with its
//! hysteresis rule, the formatting of MIDI note-on/note-off messages, and the
//! endpoint negotiation state machine that selects the audio host, microphone
//! and MIDI destination before streaming starts. Audio capture, pitch
//! estimation and device I/O live outside the library and hand it plain
//! values.

pub mod engine;
pub mod midi;
pub mod moving_average;
pub mod negotiation;
