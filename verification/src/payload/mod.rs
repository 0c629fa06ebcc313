//! Payload: bit packing, error correction, encryption, the capsule header
//! and the keyed bit allocation.

pub mod bits;
pub mod error;
pub mod ecc;
pub mod crypto;
pub mod capsule;
pub mod allocation;
