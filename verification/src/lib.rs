//! Audio-reactive analysis core.
//!
//! The library consumes decoded PCM audio, mixes concurrently playing
//! sources into an output buffer, and derives the perceptual signals a
//! visualizer reads every display frame: instantaneous loudness, a
//! magnitude spectrum, spectral-flux onset energy, and a debounced beat
//! trigger with a hue and circle-radius parameter.
//!
//! All signal values are fixed-point integers in milli-units (one
//! thousandth of the corresponding real-valued quantity), so every
//! computation here is exact integer arithmetic with proved bounds.

pub mod analysis;
pub mod beat;
pub mod history;
pub mod math;
pub mod mixer;
pub mod spectrum;
