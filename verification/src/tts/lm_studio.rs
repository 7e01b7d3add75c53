//! LM Studio TTS provider.
//!
//! LM Studio exposes an OpenAI-compatible `{endpoint}/audio/speech` endpoint
//! locally (default base: `http://localhost:1234/v1`). No API key is
//! required: the provider is always considered configured.
//!
//! Sending the request happens outside this module; here are the provider's
//! settings and the request that a synthesis sends.

use vstd::prelude::*;
use crate::client::new_client;
use crate::text::{opt_str_view, push_str};
use crate::tts::{AudioFormat, Voice, VoiceView, opt_string_view};

verus! {

/// Provider identifier.
pub const STR: &'static str = "lm-studio";

/// Default LM Studio endpoint.
pub const DEFAULT_ENDPOINT: &'static str = "http://localhost:1234/v1";

/// Default voice (LM Studio may not support voice selection).
pub const DEFAULT_VOICE: &'static str = "default";

/// Fallback model when none is specified: LM Studio uses whichever model is
/// loaded.
pub const DEFAULT_MODEL: &'static str = "default";

/// LM Studio TTS provider.
#[derive(Clone, Debug)]
pub struct LmStudioTts {
    pub client: reqwest::Client,
    pub endpoint: String,
    pub default_voice: String,
    pub default_model: Option<String>,
}

/// The body of a speech request (the requested speed is added by the
/// caller).
#[derive(Clone, Debug)]
pub struct SpeechRequest {
    pub model: String,
    pub input: String,
    pub voice: String,
    pub response_format: Option<String>,
}

/// The OpenAI-compatible `response_format` for each audio format.
pub open spec fn response_format_for(format: AudioFormat) -> Seq<char> {
    match format {
        AudioFormat::Mp3 => "mp3"@,
        AudioFormat::Opus | AudioFormat::Webm => "opus"@,
        AudioFormat::Aac => "aac"@,
        AudioFormat::Pcm => "pcm"@,
    }
}

impl LmStudioTts {
    /// Create a provider for `endpoint` (else [`DEFAULT_ENDPOINT`]), with the
    /// default voice and no default model.
    pub fn new(endpoint: Option<String>) -> (r: Self)
        ensures
            r.endpoint@ == match endpoint {
                Some(e) => e@,
                None => DEFAULT_ENDPOINT@,
            },
            r.default_voice@ == DEFAULT_VOICE@,
            r.default_model is None,
    {
        let endpoint = match endpoint {
            Some(e) => e,
            None => DEFAULT_ENDPOINT.to_string(),
        };
        LmStudioTts {
            client: new_client(),
            endpoint,
            default_voice: DEFAULT_VOICE.to_string(),
            default_model: None,
        }
    }

    /// Create a provider with a custom endpoint, default voice and model;
    /// each missing one falls back to its default.
    pub fn with_defaults(endpoint: Option<String>, voice: Option<String>, model: Option<String>) -> (r:
        Self)
        ensures
            r.endpoint@ == match endpoint {
                Some(e) => e@,
                None => DEFAULT_ENDPOINT@,
            },
            r.default_voice@ == match voice {
                Some(v) => v@,
                None => DEFAULT_VOICE@,
            },
            opt_string_view(r.default_model) == opt_string_view(model),
    {
        let endpoint = match endpoint {
            Some(e) => e,
            None => DEFAULT_ENDPOINT.to_string(),
        };
        let default_voice = match voice {
            Some(v) => v,
            None => DEFAULT_VOICE.to_string(),
        };
        LmStudioTts { client: new_client(), endpoint, default_voice, default_model: model }
    }

    /// Map an audio format to the OpenAI-compatible response format string.
    pub fn response_format(format: AudioFormat) -> (r: &'static str)
        ensures
            r@ == response_format_for(format),
    {
        match format {
            AudioFormat::Mp3 => "mp3",
            AudioFormat::Opus | AudioFormat::Webm => "opus",
            AudioFormat::Aac => "aac",
            AudioFormat::Pcm => "pcm",
        }
    }

    /// Provider identifier.
    pub fn id(&self) -> (r: &'static str)
        ensures
            r@ == STR@,
    {
        STR
    }

    /// Human-readable provider name.
    pub fn name(&self) -> (r: &'static str)
        ensures
            r@ == "LM Studio"@,
    {
        "LM Studio"
    }

    /// No API key is needed: always configured.
    pub fn is_configured(&self) -> (r: bool)
        ensures
            r,
    {
        true
    }

    /// LM Studio takes plain text, not SSML.
    pub fn supports_ssml(&self) -> (r: bool)
        ensures
            !r,
    {
        false
    }

    /// The voices offered: the single default voice.
    pub fn voices(&self) -> (r: Vec<Voice>)
        ensures
            r@.len() == 1,
            r@[0]@ == (VoiceView {
                id: DEFAULT_VOICE@,
                name: "Default"@,
                description: Some("Default LM Studio voice"@),
                preview_url: None,
            }),
    {
        let mut r: Vec<Voice> = Vec::new();
        r.push(
            Voice {
                id: DEFAULT_VOICE.to_string(),
                name: "Default".to_string(),
                description: Some("Default LM Studio voice".to_string()),
                preview_url: None,
            },
        );
        r
    }

    /// The voice to speak with: the requested one, else the default voice.
    pub open spec fn voice_for(&self, voice_id: Option<Seq<char>>) -> Seq<char> {
        match voice_id {
            Some(v) => v,
            None => self.default_voice@,
        }
    }

    /// The model to speak with: the requested one, else the default model,
    /// else [`DEFAULT_MODEL`].
    pub open spec fn model_for(&self, model: Option<Seq<char>>) -> Seq<char> {
        match model {
            Some(m) => m,
            None => match self.default_model {
                Some(m) => m@,
                None => DEFAULT_MODEL@,
            },
        }
    }

    /// A requested model is the model spoken with, whatever default model
    /// the provider has; without a request the provider's default model is
    /// used, and only without either does [`DEFAULT_MODEL`] stand in.
    pub proof fn lemma_requested_model_wins(&self, requested: Option<Seq<char>>)
        ensures
            requested matches Some(m) ==> self.model_for(requested) == m,
            self.default_model matches Some(d) ==> (requested is None ==> self.model_for(
                requested,
            ) == d@),
            requested is None && self.default_model is None ==> self.model_for(requested)
                == DEFAULT_MODEL@,
    {
    }

    /// A requested voice is the voice spoken with, whatever default voice
    /// the provider has; without a request the default voice is used.
    pub proof fn lemma_requested_voice_wins(&self, requested: Option<Seq<char>>)
        ensures
            requested matches Some(v) ==> self.voice_for(requested) == v,
            requested is None ==> self.voice_for(requested) == self.default_voice@,
    {
    }

    /// The body of the speech request for `text` in `format`, with the
    /// requested voice and model, or their defaults.
    pub fn speech_request(
        &self,
        voice_id: Option<&str>,
        model: Option<&str>,
        text: &str,
        format: AudioFormat,
    ) -> (r: SpeechRequest)
        ensures
            r.model@ == self.model_for(opt_str_view(model)),
            r.input@ == text@,
            r.voice@ == self.voice_for(opt_str_view(voice_id)),
            model matches Some(m) ==> r.model@ == m@,
            model is None ==> r.model@ == match self.default_model {
                Some(d) => d@,
                None => DEFAULT_MODEL@,
            },
            voice_id matches Some(v) ==> r.voice@ == v@,
            voice_id is None ==> r.voice@ == self.default_voice@,
            opt_string_view(r.response_format) == Some(response_format_for(format)),
    {
        let voice = match voice_id {
            Some(v) => v.to_string(),
            None => self.default_voice.clone(),
        };
        let model = match model {
            Some(m) => m.to_string(),
            None => match &self.default_model {
                Some(m) => m.clone(),
                None => DEFAULT_MODEL.to_string(),
            },
        };
        SpeechRequest {
            model,
            input: text.to_string(),
            voice,
            response_format: Some(Self::response_format(format).to_string()),
        }
    }

    /// The error reported when a speech request is answered with a status that is
    /// not a success: `LM Studio TTS request failed: {status} - {body}`.
    pub fn speech_failure(status: &str, body: &str) -> (r: String)
        ensures
            r@ == "LM Studio TTS request failed: "@ + status@ + " - "@ + body@,
    {
        let mut s = String::new();
        push_str(&mut s, "LM Studio TTS request failed: ");
        push_str(&mut s, status);
        push_str(&mut s, " - ");
        push_str(&mut s, body);
        s
    }

    /// The URL that speech requests are posted to: `{endpoint}/audio/speech`.
    pub fn speech_url(&self) -> (r: String)
        ensures
            r@ == self.endpoint@ + "/audio/speech"@,
    {
        let mut s = String::new();
        push_str(&mut s, self.endpoint.as_str());
        push_str(&mut s, "/audio/speech");
        s
    }
}

impl Default for LmStudioTts {
    fn default() -> (r: Self)
        ensures
            r.endpoint@ == DEFAULT_ENDPOINT@,
            r.default_voice@ == DEFAULT_VOICE@,
            r.default_model is None,
    {
        Self::new(None)
    }
}

} // verus!
