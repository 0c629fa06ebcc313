//! FFT-domain audio steganography: the verified payload, framing and
//! parameter logic.

pub mod text;
pub mod cli;
pub mod outside;
pub mod payload;
pub mod profile;
pub mod dsp;
pub mod engine;
pub mod audio;
pub mod strategy;
pub mod sidecar;
