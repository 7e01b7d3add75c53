# moltis

Verified core of the Moltis SSRF guard and of the macOS (`say`) and LM Studio
voice providers, with its contracts proved.

- `src/ssrf.rs`: IP address classification, CIDR networks and allowlists, and
  the decisions of the SSRF check (host, literal address, resolved addresses).
- `src/text.rs`: Unicode whitespace, trimming, searching, line splitting and
  decimal rendering over character sequences.
- `src/tts.rs`, `src/tts/macos.rs`, `src/tts/lm_studio.rs`: audio formats,
  voices, parsing of `say -v '?'` output, `say` arguments, LM Studio speech
  requests.
- `src/stt/lm_studio.rs`: LM Studio transcription requests.
- `src/client.rs`: the HTTP client type that the LM Studio providers carry.
- `app/`: the async runtime around the library: DNS resolution, the `say`
  process, HTTP calls and the provider traits.
