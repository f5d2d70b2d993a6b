//! What a transcription leaves behind.

pub mod markdown;
