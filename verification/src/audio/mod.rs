//! Channel handling and the checks around outside audio tools.

pub mod channels;
pub mod ffmpeg;
