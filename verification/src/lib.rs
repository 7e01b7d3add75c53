//! Verified core of the Moltis SSRF guard and the macOS / LM Studio voice
//! providers: address classification, allowlists, voice-list parsing and the
//! request decisions that the providers make.

pub mod ssrf;
pub mod text;
pub mod tts;
pub mod client;
pub mod stt;
