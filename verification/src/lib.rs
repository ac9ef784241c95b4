//! Verified core of a video transcription service: URL and caption
//! decoding, transcript formatting and the decisions of its tool server.

pub mod text;
pub mod preview;
pub mod types;
pub mod youtube;
pub mod engine;
pub mod timefmt;
pub mod whisper;
pub mod catalog;
pub mod tools;
pub mod media;
