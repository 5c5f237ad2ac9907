//! A verified core for a waveform-scrubbing audio player.
//!
//! The library holds the pieces of such a player that carry real logic: a
//! single-producer/single-consumer control queue from the interface thread to
//! the audio callback, the playback engine that drains those queues and emits
//! samples while looping inside configured bounds, a square-wave oscillator
//! for the synthesized-tone variant, a waveform downsampler for drawing, and
//! the arithmetic behind the on-screen markers. Windowing, audio-device and
//! file handling stay outside, in the application around the library.

pub mod channel;
pub mod downsample;
pub mod oscillator;
pub mod playback;
pub mod ratio;
pub mod view;
