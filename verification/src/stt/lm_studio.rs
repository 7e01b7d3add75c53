//! LM Studio STT provider.
//!
//! LM Studio exposes an OpenAI-compatible `{endpoint}/audio/transcriptions`
//! endpoint locally (default base: `http://localhost:1234/v1`). No API key is
//! required: the provider is always considered configured.
//!
//! Sending the multipart request happens outside this module; here are the
//! provider's settings and what a transcription request is made of.

use vstd::prelude::*;
use crate::client::new_client;
use crate::text::{opt_str_view, push_str};
use crate::tts::{AudioFormat, format_extension, format_mime_type, opt_string_view};

verus! {

/// Provider identifier.
pub const STR: &'static str = "lm-studio-stt";

/// Default LM Studio endpoint.
pub const DEFAULT_ENDPOINT: &'static str = "http://localhost:1234/v1";

/// LM Studio STT provider.
#[derive(Clone, Debug)]
pub struct LmStudioStt {
    pub client: reqwest::Client,
    pub endpoint: String,
    pub model: Option<String>,
}

/// The form field `name` with `value`, when there is a value.
pub open spec fn optional_field(name: Seq<char>, value: Option<Seq<char>>) -> Seq<
    (Seq<char>, Seq<char>),
> {
    match value {
        Some(v) => seq![(name, v)],
        None => Seq::empty(),
    }
}

/// The text fields of a transcription form, in order: the verbose JSON
/// response format, then the model, language and prompt where given.
pub open spec fn transcription_fields(
    model: Option<Seq<char>>,
    language: Option<Seq<char>>,
    prompt: Option<Seq<char>>,
) -> Seq<(Seq<char>, Seq<char>)> {
    seq![("response_format"@, "verbose_json"@)] + optional_field("model"@, model)
        + optional_field("language"@, language) + optional_field("prompt"@, prompt)
}

/// The field names of a transcription form differ from one another.
proof fn lemma_field_names_distinct()
    ensures
        "response_format"@ != "model"@,
        "response_format"@ != "language"@,
        "response_format"@ != "prompt"@,
        "model"@ != "language"@,
        "model"@ != "prompt"@,
        "language"@ != "prompt"@,
{
    reveal_strlit("response_format");
    reveal_strlit("model");
    reveal_strlit("language");
    reveal_strlit("prompt");
    assert("response_format"@.len() == 15);
    assert("model"@.len() == 5);
    assert("language"@.len() == 8);
    assert("prompt"@.len() == 6);
}

/// A transcription form always asks for the verbose JSON response format,
/// and holds the field `(name, v)` for the model, the language or the prompt
/// exactly when that one was given as `v`, whatever the other two are.
pub proof fn lemma_transcription_fields_present_iff_given(
    model: Option<Seq<char>>,
    language: Option<Seq<char>>,
    prompt: Option<Seq<char>>,
)
    ensures
        transcription_fields(model, language, prompt).contains(
            ("response_format"@, "verbose_json"@),
        ),
        forall|v: Seq<char>|
            #![trigger transcription_fields(model, language, prompt).contains(("model"@, v))]
            transcription_fields(model, language, prompt).contains(("model"@, v)) <==> model
                == Some(v),
        forall|v: Seq<char>|
            #![trigger transcription_fields(model, language, prompt).contains(("language"@, v))]
            transcription_fields(model, language, prompt).contains(("language"@, v)) <==> language
                == Some(v),
        forall|v: Seq<char>|
            #![trigger transcription_fields(model, language, prompt).contains(("prompt"@, v))]
            transcription_fields(model, language, prompt).contains(("prompt"@, v)) <==> prompt
                == Some(v),
{
    lemma_field_names_distinct();
    let f = transcription_fields(model, language, prompt);
    let fm = optional_field("model"@, model);
    let fl = optional_field("language"@, language);
    let fp = optional_field("prompt"@, prompt);
    let a: int = 1 + fm.len() as int;
    let b: int = a + fl.len() as int;
    assert(f[0] == ("response_format"@, "verbose_json"@));
    assert forall|i: int| 1 <= i < a implies #[trigger] f[i] == fm[i - 1] by {}
    assert forall|i: int| a <= i < b implies #[trigger] f[i] == fl[i - a] by {}
    assert forall|i: int| b <= i < f.len() implies #[trigger] f[i] == fp[i - b] by {}
    assert forall|i: int| 0 <= i < f.len() implies {
        &&& (#[trigger] f[i]).0 == "model"@ ==> model == Some(f[i].1)
        &&& f[i].0 == "language"@ ==> language == Some(f[i].1)
        &&& f[i].0 == "prompt"@ ==> prompt == Some(f[i].1)
    } by {
        if i == 0 {
        } else if i < a {
            assert(f[i] == fm[i - 1]);
        } else if i < b {
            assert(f[i] == fl[i - a]);
        } else {
            assert(f[i] == fp[i - b]);
        }
    }
    assert forall|v: Seq<char>| model == Some(v) implies f.contains(("model"@, v)) by {
        assert(f[1] == fm[0]);
    }
    assert forall|v: Seq<char>| language == Some(v) implies f.contains(("language"@, v)) by {
        assert(f[a] == fl[0]);
    }
    assert forall|v: Seq<char>| prompt == Some(v) implies f.contains(("prompt"@, v)) by {
        assert(f[b] == fp[0]);
    }
}

pub open spec fn fields_view(v: Seq<(String, String)>) -> Seq<(Seq<char>, Seq<char>)> {
    v.map_values(|f: (String, String)| (f.0@, f.1@))
}

fn push_field(fields: &mut Vec<(String, String)>, name: &str, value: &str)
    ensures
        fields_view(final(fields)@) == fields_view(old(fields)@).push((name@, value@)),
{
    fields.push((name.to_string(), value.to_string()));
    assert(fields_view(fields@) =~= fields_view(old(fields)@).push((name@, value@)));
}

impl LmStudioStt {
    /// Create a provider for `endpoint` (else [`DEFAULT_ENDPOINT`]), without
    /// a model.
    pub fn new(endpoint: Option<String>) -> (r: Self)
        ensures
            r.endpoint@ == match endpoint {
                Some(e) => e@,
                None => DEFAULT_ENDPOINT@,
            },
            r.model is None,
    {
        let endpoint = match endpoint {
            Some(e) => e,
            None => DEFAULT_ENDPOINT.to_string(),
        };
        LmStudioStt { client: new_client(), endpoint, model: None }
    }

    /// Create a provider with a custom endpoint (else [`DEFAULT_ENDPOINT`])
    /// and model.
    pub fn with_model(endpoint: Option<String>, model: Option<String>) -> (r: Self)
        ensures
            r.endpoint@ == match endpoint {
                Some(e) => e@,
                None => DEFAULT_ENDPOINT@,
            },
            opt_string_view(r.model) == opt_string_view(model),
    {
        let endpoint = match endpoint {
            Some(e) => e,
            None => DEFAULT_ENDPOINT.to_string(),
        };
        LmStudioStt { client: new_client(), endpoint, model }
    }

    /// File extension for an audio format.
    pub fn file_extension(format: AudioFormat) -> (r: &'static str)
        ensures
            r@ == format_extension(format),
    {
        format.extension()
    }

    /// MIME type for an audio format.
    pub fn mime_type(format: AudioFormat) -> (r: &'static str)
        ensures
            r@ == format_mime_type(format),
    {
        format.mime_type()
    }

    /// Provider identifier.
    pub fn id(&self) -> (r: &'static str)
        ensures
            r@ == STR@,
    {
        STR
    }

    /// Human-readable provider name.
    pub fn name(&self) -> (r: &'static str)
        ensures
            r@ == "LM Studio"@,
    {
        "LM Studio"
    }

    /// No API key is needed: always configured.
    pub fn is_configured(&self) -> (r: bool)
        ensures
            r,
    {
        true
    }

    /// The file name of the uploaded audio: `audio.{extension}`.
    pub fn audio_file_name(format: AudioFormat) -> (r: String)
        ensures
            r@ == "audio."@ + format_extension(format),
    {
        let mut s = String::new();
        push_str(&mut s, "audio.");
        push_str(&mut s, Self::file_extension(format));
        s
    }

    /// The text fields of the transcription form for a request in
    /// `language` with `prompt`; see [`transcription_fields`].
    pub fn form_text_fields(&self, language: Option<&str>, prompt: Option<&str>) -> (r: Vec<
        (String, String),
    >)
        ensures
            fields_view(r@) == transcription_fields(
                opt_string_view(self.model),
                opt_str_view(language),
                opt_str_view(prompt),
            ),
            fields_view(r@).contains(("response_format"@, "verbose_json"@)),
            forall|v: Seq<char>|
                #![trigger fields_view(r@).contains(("model"@, v))]
                fields_view(r@).contains(("model"@, v)) <==> opt_string_view(self.model) == Some(v),
            forall|v: Seq<char>|
                #![trigger fields_view(r@).contains(("language"@, v))]
                fields_view(r@).contains(("language"@, v)) <==> opt_str_view(language) == Some(v),
            forall|v: Seq<char>|
                #![trigger fields_view(r@).contains(("prompt"@, v))]
                fields_view(r@).contains(("prompt"@, v)) <==> opt_str_view(prompt) == Some(v),
    {
        let mut fields: Vec<(String, String)> = Vec::new();
        push_field(&mut fields, "response_format", "verbose_json");
        assert(fields_view(fields@) =~= seq![("response_format"@, "verbose_json"@)]);
        let ghost acc = fields_view(fields@);
        if let Some(model) = &self.model {
            push_field(&mut fields, "model", model.as_str());
        }
        assert(fields_view(fields@) =~= acc + optional_field("model"@, opt_string_view(self.model)));
        let ghost acc = fields_view(fields@);
        if let Some(language) = language {
            push_field(&mut fields, "language", language);
        }
        assert(fields_view(fields@) =~= acc + optional_field("language"@, opt_str_view(language)));
        let ghost acc = fields_view(fields@);
        if let Some(prompt) = prompt {
            push_field(&mut fields, "prompt", prompt);
        }
        assert(fields_view(fields@) =~= acc + optional_field("prompt"@, opt_str_view(prompt)));
        proof {
            lemma_transcription_fields_present_iff_given(
                opt_string_view(self.model),
                opt_str_view(language),
                opt_str_view(prompt),
            );
        }
        fields
    }

    /// The error reported when a transcription request is answered with a status that is
    /// not a success: `LM Studio transcription request failed: {status} - {body}`.
    pub fn transcription_failure(status: &str, body: &str) -> (r: String)
        ensures
            r@ == "LM Studio transcription request failed: "@ + status@ + " - "@ + body@,
    {
        let mut s = String::new();
        push_str(&mut s, "LM Studio transcription request failed: ");
        push_str(&mut s, status);
        push_str(&mut s, " - ");
        push_str(&mut s, body);
        s
    }

    /// The URL that transcription requests are posted to:
    /// `{endpoint}/audio/transcriptions`.
    pub fn transcription_url(&self) -> (r: String)
        ensures
            r@ == self.endpoint@ + "/audio/transcriptions"@,
    {
        let mut s = String::new();
        push_str(&mut s, self.endpoint.as_str());
        push_str(&mut s, "/audio/transcriptions");
        s
    }
}

impl Default for LmStudioStt {
    fn default() -> (r: Self)
        ensures
            r.endpoint@ == DEFAULT_ENDPOINT@,
            r.model is None,
    {
        Self::new(None)
    }
}

} // verus!
