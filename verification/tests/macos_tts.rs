use moltis::tts::macos::{MacOsTts, DEFAULT_RATE_WPM, DEFAULT_VOICE, STR};
use moltis::tts::AudioFormat;

fn speed_to_rate(speed: Option<f32>) -> u32 {
    MacOsTts::rate_from_scaled_wpm(speed.map(|s| (DEFAULT_RATE_WPM as f32 * s) as u32))
}

#[test]
fn test_default_voice() {
    let tts = MacOsTts::new(None);
    assert_eq!(tts.default_voice, DEFAULT_VOICE);
}

#[test]
fn test_custom_voice() {
    let tts = MacOsTts::new(Some("Samantha".into()));
    assert_eq!(tts.default_voice, "Samantha");
}

#[test]
fn test_default_trait() {
    let tts = MacOsTts::default();
    assert_eq!(tts.default_voice, DEFAULT_VOICE);
}

#[test]
fn test_id() {
    let tts = MacOsTts::new(None);
    assert_eq!(tts.id(), "macos");
}

#[test]
fn test_name() {
    let tts = MacOsTts::new(None);
    assert_eq!(tts.name(), "macOS");
}

#[test]
fn macos_test_str_constant() {
    assert_eq!(STR, "macos");
}

#[test]
fn test_does_not_support_ssml() {
    let tts = MacOsTts::new(None);
    assert!(!tts.supports_ssml());
}

#[test]
fn test_speed_none_returns_default_rate() {
    assert_eq!(speed_to_rate(None), DEFAULT_RATE_WPM);
}

#[test]
fn test_speed_1x_returns_default_rate() {
    assert_eq!(speed_to_rate(Some(1.0)), DEFAULT_RATE_WPM);
}

#[test]
fn test_speed_2x_doubles_rate() {
    assert_eq!(speed_to_rate(Some(2.0)), DEFAULT_RATE_WPM * 2);
}

#[test]
fn test_speed_half_halves_rate() {
    assert_eq!(speed_to_rate(Some(0.5)), DEFAULT_RATE_WPM / 2);
}

#[test]
fn test_speed_clamps_low() {
    assert_eq!(speed_to_rate(Some(0.001)), 1);
}

#[test]
fn test_speed_clamps_high() {
    assert_eq!(speed_to_rate(Some(100.0)), 700);
}

#[test]
fn rate_from_scaled_wpm_clamps_to_bounds() {
    assert_eq!(MacOsTts::rate_from_scaled_wpm(None), 175);
    assert_eq!(MacOsTts::rate_from_scaled_wpm(Some(0)), 1);
    assert_eq!(MacOsTts::rate_from_scaled_wpm(Some(1)), 1);
    assert_eq!(MacOsTts::rate_from_scaled_wpm(Some(350)), 350);
    assert_eq!(MacOsTts::rate_from_scaled_wpm(Some(700)), 700);
    assert_eq!(MacOsTts::rate_from_scaled_wpm(Some(701)), 700);
    assert_eq!(MacOsTts::rate_from_scaled_wpm(Some(u32::MAX)), 700);
}

#[test]
fn test_parse_standard_line() {
    let line = "Alex                en_US    # Most people recognize me by my voice.";
    let voice = MacOsTts::parse_voice_line(line).unwrap();
    assert_eq!(voice.id, "Alex");
    assert_eq!(voice.name, "Alex");
    assert_eq!(
        voice.description.as_deref(),
        Some("Most people recognize me by my voice.")
    );
    assert!(voice.preview_url.is_none());
}

#[test]
fn test_parse_multi_word_name() {
    let line = "Bad News            en_US    # The strains of the news grow tedious.";
    let voice = MacOsTts::parse_voice_line(line).unwrap();
    assert_eq!(voice.id, "Bad News");
    assert_eq!(voice.name, "Bad News");
    assert_eq!(
        voice.description.as_deref(),
        Some("The strains of the news grow tedious.")
    );
}

#[test]
fn test_parse_non_english_locale() {
    let line = "Thomas              fr_FR    # Bonjour, je m'appelle Thomas.";
    let voice = MacOsTts::parse_voice_line(line).unwrap();
    assert_eq!(voice.id, "Thomas");
    assert_eq!(voice.name, "Thomas");
    assert_eq!(
        voice.description.as_deref(),
        Some("Bonjour, je m'appelle Thomas.")
    );
}

#[test]
fn test_parse_no_description() {
    let line = "Alex                en_US    #";
    let voice = MacOsTts::parse_voice_line(line).unwrap();
    assert_eq!(voice.name, "Alex");
    assert!(voice.description.is_none());
}

#[test]
fn test_parse_empty_line_returns_none() {
    assert!(MacOsTts::parse_voice_line("").is_none());
}

#[test]
fn test_parse_no_hash_returns_none() {
    assert!(MacOsTts::parse_voice_line("Alex en_US no hash").is_none());
}

#[test]
fn test_parse_only_whitespace_name_returns_none() {
    let line = "    en_US    # description";
    assert!(MacOsTts::parse_voice_line(line).is_none());
}

#[test]
fn parse_single_token_before_hash_returns_none() {
    assert!(MacOsTts::parse_voice_line("Alex# description").is_none());
    assert!(MacOsTts::parse_voice_line("   Alex   # description").is_none());
}

#[test]
fn parse_uses_first_hash_and_unicode_whitespace() {
    let voice = MacOsTts::parse_voice_line("Zoë\u{3000}Premium\tde_DE #  Hallo # zwei \u{a0}").unwrap();
    assert_eq!(voice.name, "Zoë\u{3000}Premium");
    assert_eq!(voice.description.as_deref(), Some("Hallo # zwei"));
}

#[test]
fn parse_voices_reads_each_line() {
    let out = "Alex                en_US    # Most people recognize me by my voice.\r\n\
               garbage without hash\n\
               \n\
               Bad News            en_US    # The strains of the news grow tedious.\n\
               Thomas              fr_FR    #";
    let voices = MacOsTts::parse_voices(out);
    assert_eq!(voices.len(), 3);
    assert_eq!(voices[0].name, "Alex");
    assert_eq!(
        voices[0].description.as_deref(),
        Some("Most people recognize me by my voice.")
    );
    assert_eq!(voices[1].name, "Bad News");
    assert_eq!(voices[2].name, "Thomas");
    assert!(voices[2].description.is_none());
    assert!(MacOsTts::parse_voices("").is_empty());
}

#[test]
fn parse_voices_matches_line_by_line_parsing() {
    let out = "A  en_US # a\n\nB b  en_GB  # \r\n#\nC x # c\r";
    let expected: Vec<_> = out.lines().filter_map(MacOsTts::parse_voice_line).collect();
    let got = MacOsTts::parse_voices(out);
    assert_eq!(got.len(), expected.len());
    for (g, e) in got.iter().zip(expected.iter()) {
        assert_eq!(g.name, e.name);
        assert_eq!(g.description, e.description);
    }
}

#[test]
fn test_temp_path_has_aiff_extension() {
    let name = MacOsTts::temp_file_name(4242, 1_700_000_000_123_456_789);
    let path = std::path::Path::new(&name);
    assert_eq!(path.extension().and_then(|e| e.to_str()), Some("aiff"));
}

#[test]
fn temp_file_name_format() {
    assert_eq!(MacOsTts::temp_file_name(0, 0), "moltis-say-0-0.aiff");
    assert_eq!(
        MacOsTts::temp_file_name(4242, 1_700_000_000_123_456_789),
        "moltis-say-4242-1700000000123456789.aiff"
    );
    assert_eq!(
        MacOsTts::temp_file_name(u32::MAX, u128::MAX),
        format!("moltis-say-{}-{}.aiff", u32::MAX, u128::MAX)
    );
}

#[test]
fn test_temp_paths_are_unique() {
    let a = MacOsTts::temp_file_name(12, 345);
    let b = MacOsTts::temp_file_name(123, 45);
    let c = MacOsTts::temp_file_name(12, 346);
    assert_ne!(a, b);
    assert_ne!(a, c);
}

#[test]
fn test_debug() {
    let tts = MacOsTts::new(None);
    let debug = format!("{tts:?}");
    assert!(debug.contains("MacOsTts"));
    assert!(debug.contains("Alex"));
}

#[test]
fn say_arguments_use_default_or_requested_voice() {
    let tts = MacOsTts::new(None);
    let args = tts.say_arguments(None, Some(350), "/tmp/out.aiff", "Hello");
    assert_eq!(
        args,
        vec!["-v", "Alex", "--rate", "350", "-o", "/tmp/out.aiff", "--data-format=LEI16@22050", "Hello"]
    );
    let args = tts.say_arguments(Some("Samantha"), None, "x.aiff", "Hi there");
    assert_eq!(
        args,
        vec!["-v", "Samantha", "--rate", "175", "-o", "x.aiff", "--data-format=LEI16@22050", "Hi there"]
    );
    let args = tts.say_arguments(None, Some(5000), "x.aiff", "");
    assert_eq!(args[3], "700");
}

#[test]
fn voices_from_output_success_and_failure() {
    let out = b"Alex                en_US    # Hi\nFred en_US # \n";
    let voices = MacOsTts::voices_from_output(true, out, b"").unwrap();
    assert_eq!(voices.len(), 2);
    assert_eq!(voices[1].name, "Fred");
    let err = MacOsTts::voices_from_output(false, out, b"no say here").unwrap_err();
    assert_eq!(err, "`say -v '?'` failed: no say here");
    let err = MacOsTts::voices_from_output(false, b"", b"bad \xff byte").unwrap_err();
    assert_eq!(err, "`say -v '?'` failed: bad \u{fffd} byte");
}

#[test]
fn synthesis_status_and_format() {
    assert!(MacOsTts::synthesis_status(true, b"ignored").is_ok());
    assert_eq!(
        MacOsTts::synthesis_status(false, b"boom").unwrap_err(),
        "`say` synthesis failed: boom"
    );
    for f in [AudioFormat::Mp3, AudioFormat::Opus, AudioFormat::Aac, AudioFormat::Pcm, AudioFormat::Webm] {
        assert_eq!(MacOsTts::output_format(f), AudioFormat::Pcm);
    }
}

#[test]
fn faster_speed_never_slows_rate() {
    let speeds = [0.0f32, 0.001, 0.3, 0.5, 1.0, 1.5, 2.0, 3.9, 4.0, 4.1, 100.0];
    for w in speeds.windows(2) {
        assert!(speed_to_rate(Some(w[0])) <= speed_to_rate(Some(w[1])));
    }
}

#[test]
fn voice_list_arguments_ask_for_all_voices() {
    assert_eq!(MacOsTts::voice_list_arguments(), vec!["-v", "?"]);
}
