use moltis::client::{is_success_status, response_step, ResponseStep};
use moltis::stt::lm_studio::{self as stt, LmStudioStt};
use moltis::tts::lm_studio::{self as tts, LmStudioTts};
use moltis::tts::AudioFormat;

#[test]
fn lm_studio_test_str_constant() {
    assert_eq!(stt::STR, "lm-studio-stt");
    assert_eq!(tts::STR, "lm-studio");
}

#[test]
fn lm_studio_test_provider_metadata() {
    let provider = LmStudioStt::new(None);
    assert_eq!(provider.id(), "lm-studio-stt");
    assert_eq!(provider.name(), "LM Studio");
    assert!(provider.is_configured());

    let provider = LmStudioTts::new(None);
    assert_eq!(provider.id(), "lm-studio");
    assert_eq!(provider.name(), "LM Studio");
    assert!(provider.is_configured());
    assert!(!provider.supports_ssml());
}

#[test]
fn lm_studio_test_always_configured() {
    let default = LmStudioStt::default();
    assert!(default.is_configured());
    let custom = LmStudioStt::new(Some("http://custom:5000/v1".into()));
    assert!(custom.is_configured());
    let with_model =
        LmStudioStt::with_model(Some("http://remote:8080/v1".into()), Some("whisper".into()));
    assert!(with_model.is_configured());

    let default = LmStudioTts::default();
    assert!(default.is_configured());
    let custom = LmStudioTts::new(Some("http://custom:5000/v1".into()));
    assert!(custom.is_configured());
}

#[test]
fn lm_studio_test_default_endpoint() {
    let provider = LmStudioStt::new(None);
    assert_eq!(provider.endpoint, stt::DEFAULT_ENDPOINT);
    assert!(provider.model.is_none());

    let provider = LmStudioTts::new(None);
    assert_eq!(provider.endpoint, tts::DEFAULT_ENDPOINT);
}

#[test]
fn lm_studio_test_custom_endpoint() {
    let provider = LmStudioStt::new(Some("http://myhost:9999/v1".into()));
    assert_eq!(provider.endpoint, "http://myhost:9999/v1");
    let provider = LmStudioTts::new(Some("http://myhost:9999/v1".into()));
    assert_eq!(provider.endpoint, "http://myhost:9999/v1");
}

#[test]
fn test_with_model() {
    let provider = LmStudioStt::with_model(
        Some("http://custom:8080/v1".into()),
        Some("whisper-large-v3".into()),
    );
    assert_eq!(provider.endpoint, "http://custom:8080/v1");
    assert_eq!(provider.model.as_deref(), Some("whisper-large-v3"));
}

#[test]
fn test_with_model_defaults() {
    let provider = LmStudioStt::with_model(None, None);
    assert_eq!(provider.endpoint, stt::DEFAULT_ENDPOINT);
    assert!(provider.model.is_none());
}

#[test]
fn lm_studio_test_debug_output() {
    let provider = LmStudioStt::new(None);
    let debug = format!("{:?}", provider);
    assert!(debug.contains("LmStudioStt"));
    assert!(debug.contains("localhost:1234"));
    assert!(debug.contains("model"));

    let provider = LmStudioTts::new(None);
    let debug = format!("{:?}", provider);
    assert!(debug.contains("LmStudioTts"));
    assert!(debug.contains("localhost:1234"));
    assert!(debug.contains("default_voice"));
}

#[test]
fn test_file_extension() {
    assert_eq!(LmStudioStt::file_extension(AudioFormat::Mp3), "mp3");
    assert_eq!(LmStudioStt::file_extension(AudioFormat::Opus), "ogg");
}

#[test]
fn test_mime_type() {
    assert_eq!(LmStudioStt::mime_type(AudioFormat::Mp3), "audio/mpeg");
    assert_eq!(LmStudioStt::mime_type(AudioFormat::Opus), "audio/ogg");
}

#[test]
fn transcription_request_parts() {
    let provider = LmStudioStt::new(Some("http://h:1/v1".into()));
    assert_eq!(provider.transcription_url(), "http://h:1/v1/audio/transcriptions");
    assert_eq!(LmStudioStt::audio_file_name(AudioFormat::Opus), "audio.ogg");
    assert_eq!(LmStudioStt::audio_file_name(AudioFormat::Mp3), "audio.mp3");
    let fields = provider.form_text_fields(None, None);
    assert_eq!(fields, vec![("response_format".to_string(), "verbose_json".to_string())]);

    let provider = LmStudioStt::with_model(None, Some("whisper".into()));
    let fields = provider.form_text_fields(Some("en"), Some("Technical discussion about Rust"));
    let expected: Vec<(String, String)> = vec![
        ("response_format".into(), "verbose_json".into()),
        ("model".into(), "whisper".into()),
        ("language".into(), "en".into()),
        ("prompt".into(), "Technical discussion about Rust".into()),
    ];
    assert_eq!(fields, expected);
    let fields = LmStudioStt::new(None).form_text_fields(None, Some("p"));
    assert_eq!(fields.len(), 2);
    assert_eq!(fields[1], ("prompt".to_string(), "p".to_string()));
}

#[test]
fn test_response_format() {
    assert_eq!(LmStudioTts::response_format(AudioFormat::Mp3), "mp3");
    assert_eq!(LmStudioTts::response_format(AudioFormat::Opus), "opus");
    assert_eq!(LmStudioTts::response_format(AudioFormat::Webm), "opus");
    assert_eq!(LmStudioTts::response_format(AudioFormat::Aac), "aac");
    assert_eq!(LmStudioTts::response_format(AudioFormat::Pcm), "pcm");
}

#[test]
fn test_voices_returns_default() {
    let provider = LmStudioTts::new(None);
    let voices = provider.voices();
    assert_eq!(voices.len(), 1);
    assert_eq!(voices[0].id, "default");
    assert_eq!(voices[0].name, "Default");
    assert!(voices[0].description.is_some());
}

#[test]
fn test_with_defaults() {
    let provider = LmStudioTts::with_defaults(
        Some("http://custom:8080/v1".into()),
        Some("custom-voice".into()),
        Some("my-model".into()),
    );
    assert_eq!(provider.endpoint, "http://custom:8080/v1");
    assert_eq!(provider.default_voice, "custom-voice");
    assert_eq!(provider.default_model.as_deref(), Some("my-model"));
}

#[test]
fn test_with_defaults_uses_defaults() {
    let provider = LmStudioTts::with_defaults(None, None, None);
    assert_eq!(provider.endpoint, tts::DEFAULT_ENDPOINT);
    assert_eq!(provider.default_voice, tts::DEFAULT_VOICE);
    assert!(provider.default_model.is_none());
}

#[test]
fn speech_request_precedence() {
    let provider = LmStudioTts::new(Some("http://h:2/v1".into()));
    assert_eq!(provider.speech_url(), "http://h:2/v1/audio/speech");
    let req = provider.speech_request(None, None, "Hello world", AudioFormat::Webm);
    assert_eq!(req.model, "default");
    assert_eq!(req.voice, "default");
    assert_eq!(req.input, "Hello world");
    assert_eq!(req.response_format.as_deref(), Some("opus"));

    let provider = LmStudioTts::with_defaults(None, Some("v1".into()), Some("kokoro".into()));
    let req = provider.speech_request(None, None, "x", AudioFormat::Mp3);
    assert_eq!(req.model, "kokoro");
    assert_eq!(req.voice, "v1");
    let req = provider.speech_request(Some("v2"), Some("other"), "x", AudioFormat::Pcm);
    assert_eq!(req.model, "other");
    assert_eq!(req.voice, "v2");
    assert_eq!(req.response_format.as_deref(), Some("pcm"));
}

#[test]
fn audio_format_extensions_and_mime_types() {
    assert_eq!(AudioFormat::Aac.extension(), "aac");
    assert_eq!(AudioFormat::Pcm.extension(), "pcm");
    assert_eq!(AudioFormat::Webm.extension(), "webm");
    assert_eq!(AudioFormat::Aac.mime_type(), "audio/aac");
    assert_eq!(AudioFormat::Pcm.mime_type(), "audio/pcm");
    assert_eq!(AudioFormat::Webm.mime_type(), "audio/webm");
}

#[test]
fn failed_requests_and_status_codes() {
    assert!(is_success_status(200));
    assert!(is_success_status(204));
    assert!(is_success_status(299));
    assert!(!is_success_status(199));
    assert!(!is_success_status(300));
    assert!(!is_success_status(404));
    assert_eq!(
        LmStudioStt::transcription_failure("404 Not Found", "no model"),
        "LM Studio transcription request failed: 404 Not Found - no model"
    );
    assert_eq!(
        LmStudioTts::speech_failure("500 Internal Server Error", ""),
        "LM Studio TTS request failed: 500 Internal Server Error - "
    );
}

#[test]
fn response_step_follows_status() {
    assert_eq!(response_step(200), ResponseStep::ReadPayload);
    assert_eq!(response_step(299), ResponseStep::ReadPayload);
    assert_eq!(response_step(199), ResponseStep::ReadErrorBody);
    assert_eq!(response_step(302), ResponseStep::ReadErrorBody);
    assert_eq!(response_step(500), ResponseStep::ReadErrorBody);
}
