//! Verified core of a voice-capture and transcription pipeline: rate
//! conversion of captured audio, the recording session state machine,
//! chunk planning and transcript assembly, and the model session cache.

pub mod audio;
pub mod cache;
pub mod chunking;
pub mod decode;
pub mod error;
pub mod models;
pub mod preferences;
pub mod recording;
pub mod requests;
pub mod resample;
pub mod transcriber;
pub mod transcript;
