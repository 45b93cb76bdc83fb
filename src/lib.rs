//! Frame-indexed spectral buffers, synthesis input validation, the streaming
//! synthesizer's sample queue and step protocol, and the staging plan of the
//! signal analysis pipeline.

pub mod spectrogram_like;
pub mod synthesis;
pub mod signal_analyzer;
