//! Signal-processing support: the STFT frame arithmetic and keyed sync.

pub mod stft;
pub mod sync;
pub mod metrics;
