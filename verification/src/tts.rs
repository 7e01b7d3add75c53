//! Text-to-speech: the shared audio and voice types and the providers.

pub mod lm_studio;
pub mod macos;

use vstd::prelude::*;

verus! {

/// Audio container / codec of synthesized or transcribed audio.
#[derive(Clone, Copy, Debug, PartialEq, Eq, Structural)]
pub enum AudioFormat {
    Mp3,
    Opus,
    Aac,
    Pcm,
    Webm,
}

/// The file extension of each format.
pub open spec fn format_extension(format: AudioFormat) -> Seq<char> {
    match format {
        AudioFormat::Mp3 => "mp3"@,
        AudioFormat::Opus => "ogg"@,
        AudioFormat::Aac => "aac"@,
        AudioFormat::Pcm => "pcm"@,
        AudioFormat::Webm => "webm"@,
    }
}

/// The MIME type of each format.
pub open spec fn format_mime_type(format: AudioFormat) -> Seq<char> {
    match format {
        AudioFormat::Mp3 => "audio/mpeg"@,
        AudioFormat::Opus => "audio/ogg"@,
        AudioFormat::Aac => "audio/aac"@,
        AudioFormat::Pcm => "audio/pcm"@,
        AudioFormat::Webm => "audio/webm"@,
    }
}

impl AudioFormat {
    /// File extension used for audio of this format.
    pub fn extension(self) -> (r: &'static str)
        ensures
            r@ == format_extension(self),
    {
        match self {
            AudioFormat::Mp3 => "mp3",
            AudioFormat::Opus => "ogg",
            AudioFormat::Aac => "aac",
            AudioFormat::Pcm => "pcm",
            AudioFormat::Webm => "webm",
        }
    }

    /// MIME type of audio of this format.
    pub fn mime_type(self) -> (r: &'static str)
        ensures
            r@ == format_mime_type(self),
    {
        match self {
            AudioFormat::Mp3 => "audio/mpeg",
            AudioFormat::Opus => "audio/ogg",
            AudioFormat::Aac => "audio/aac",
            AudioFormat::Pcm => "audio/pcm",
            AudioFormat::Webm => "audio/webm",
        }
    }
}

/// A voice that a provider offers.
#[derive(Clone, Debug)]
pub struct Voice {
    pub id: String,
    pub name: String,
    pub description: Option<String>,
    pub preview_url: Option<String>,
}

/// The contents of a [`Voice`].
pub struct VoiceView {
    pub id: Seq<char>,
    pub name: Seq<char>,
    pub description: Option<Seq<char>>,
    pub preview_url: Option<Seq<char>>,
}

pub open spec fn opt_string_view(s: Option<String>) -> Option<Seq<char>> {
    match s {
        Some(s) => Some(s@),
        None => None,
    }
}

impl View for Voice {
    type V = VoiceView;

    open spec fn view(&self) -> VoiceView {
        VoiceView {
            id: self.id@,
            name: self.name@,
            description: opt_string_view(self.description),
            preview_url: opt_string_view(self.preview_url),
        }
    }
}

pub open spec fn opt_voice_view(v: Option<Voice>) -> Option<VoiceView> {
    match v {
        Some(v) => Some(v@),
        None => None,
    }
}

} // verus!
