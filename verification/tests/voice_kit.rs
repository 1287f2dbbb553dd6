use supervox::realtime::{build_ws_url, encode_audio_event, parse_transcript_event, ServerEvent};
use supervox::transcribe::{
    combine_prompt, response_format_for_model, OpenAiStt, ParakeetStt, StreamingSttConfig, WhisperStt,
};
use supervox::voice::{
    detect_mic_mode_impl, mode_from_helper_output, mode_from_profiler_output, parse_mode_string, MicError,
    MicMode, SttError, SttInput, SttStreamError, SystemAudioError, TranscriptEvent, TtsError, TtsPlayerError,
    TtsVoice,
};

#[test]
fn mic_error_display() {
    let e = MicError::NoDevice;
    assert_eq!(e.message(), "No input device available");
}

#[test]
fn mic_error_messages() {
    assert_eq!(MicError::DeviceConfig("x".into()).message(), "Device config: x");
    assert_eq!(MicError::StreamBuild("y".into()).message(), "Stream build: y");
    assert_eq!(MicError::StreamPlay("z".into()).message(), "Stream play: z");
}

#[test]
fn mic_mode_display() {
    assert_eq!(MicMode::Standard.as_str(), "Standard");
    assert_eq!(MicMode::VoiceIsolation.as_str(), "Voice Isolation");
    assert_eq!(MicMode::WideSpectrum.as_str(), "Wide Spectrum");
    assert_eq!(MicMode::Unknown.as_str(), "Unknown");
}

#[test]
fn mic_mode_vad_config() {
    assert_eq!(MicMode::VoiceIsolation.vad_timing().silence_chunks, 20);
    assert_eq!(MicMode::Standard.vad_timing().silence_chunks, 24);
    assert_eq!(MicMode::Unknown.vad_timing().min_speech_chunks, 6);
}

#[test]
fn mic_mode_is_voice_isolated() {
    assert!(MicMode::VoiceIsolation.is_voice_isolated());
    assert!(!MicMode::Standard.is_voice_isolated());
    assert!(!MicMode::WideSpectrum.is_voice_isolated());
    assert!(!MicMode::Unknown.is_voice_isolated());
}

#[test]
fn parse_mode_strings() {
    assert_eq!(parse_mode_string("standard"), Some(MicMode::Standard));
    assert_eq!(parse_mode_string("voice_isolation"), Some(MicMode::VoiceIsolation));
    assert_eq!(parse_mode_string("voice-isolation"), Some(MicMode::VoiceIsolation));
    assert_eq!(parse_mode_string("wide_spectrum"), Some(MicMode::WideSpectrum));
    assert_eq!(parse_mode_string("unknown"), Some(MicMode::Unknown));
    assert_eq!(parse_mode_string("garbage"), None);
}

#[test]
fn parse_mode_ignores_case_and_space() {
    assert_eq!(parse_mode_string("VoiceIsolation"), Some(MicMode::VoiceIsolation));
    assert_eq!(mode_from_helper_output("  Wide-Spectrum\n"), Some(MicMode::WideSpectrum));
}

#[test]
fn detect_runs() {
    let mode = detect_mic_mode_impl(None, None);
    assert!(matches!(
        mode,
        MicMode::Standard | MicMode::VoiceIsolation | MicMode::WideSpectrum | MicMode::Unknown
    ));
    assert_eq!(mode, MicMode::Unknown);
}

#[test]
fn detect_prefers_helper_then_profiler() {
    assert_eq!(detect_mic_mode_impl(Some(MicMode::Standard), Some(MicMode::WideSpectrum)), MicMode::Standard);
    assert_eq!(detect_mic_mode_impl(None, Some(MicMode::WideSpectrum)), MicMode::WideSpectrum);
}

#[test]
fn profiler_report_reading() {
    assert_eq!(mode_from_profiler_output("Mic: Voice Isolation on"), Some(MicMode::VoiceIsolation));
    assert_eq!(mode_from_profiler_output("Wide Spectrum"), Some(MicMode::WideSpectrum));
    assert_eq!(mode_from_profiler_output("Built-in Microphone"), Some(MicMode::Standard));
    assert_eq!(mode_from_profiler_output("nothing"), None);
}

#[test]
fn stt_error_display() {
    let e = SttError::Api { status: 429, body: "rate limited".into() };
    assert_eq!(e.message(), "API error (429): rate limited");
}

#[test]
fn stt_error_empty() {
    let e = SttError::Empty;
    assert_eq!(e.message(), "Empty transcription");
}

#[test]
fn stt_error_other_messages() {
    assert_eq!(SttError::Encoding("bad".into()).message(), "Audio encoding: bad");
    assert_eq!(SttError::Request("down".into()).message(), "Request: down");
    assert_eq!(SttError::Other("raw".into()).message(), "raw");
}

#[test]
fn stt_stream_error_display() {
    let e = SttStreamError::Connection("timeout".into());
    assert_eq!(e.message(), "Connection: timeout");
    let e = SttStreamError::ChannelClosed;
    assert_eq!(e.message(), "Channel closed");
}

#[test]
fn stt_input_variants() {
    let audio = SttInput::Audio(vec![100, -200]);
    let prompt = SttInput::UpdatePrompt("test".into());
    let close = SttInput::Close;
    assert!(matches!(audio, SttInput::Audio(_)));
    assert!(matches!(prompt, SttInput::UpdatePrompt(_)));
    assert!(matches!(close, SttInput::Close));
}

#[test]
fn transcript_event_variants() {
    let delta = TranscriptEvent::Delta { item_id: "x".into(), text: "hel".into() };
    let final_ = TranscriptEvent::Final { item_id: "x".into(), text: "hello".into() };
    let err = TranscriptEvent::Error("fail".into());
    assert!(matches!(delta, TranscriptEvent::Delta { .. }));
    assert!(matches!(final_, TranscriptEvent::Final { .. }));
    assert!(matches!(err, TranscriptEvent::Error(_)));
}

#[test]
fn system_audio_error_display() {
    let e = SystemAudioError::BinaryNotFound { paths: "system-audio-tap".to_string() };
    assert!(e.message().contains("not found"));
    assert_eq!(e.message(), "system-audio-tap binary not found (searched: system-audio-tap)");
}

#[test]
fn tts_player_error_display() {
    let e = TtsPlayerError::Synthesis("timeout".into());
    assert_eq!(e.message(), "TTS synthesis: timeout");
}

#[test]
fn tts_messages_and_voices() {
    assert_eq!(TtsError::Api { status: 500, body: "oops".into() }.message(), "API error (500): oops");
    assert_eq!(TtsVoice::Nova.as_str(), "nova");
    assert_eq!(TtsVoice::Shimmer.as_str(), "shimmer");
}

#[test]
fn realtime_stt_config_defaults() {
    let config = StreamingSttConfig::new("test-key");
    assert_eq!(config.model, "gpt-4o-mini-realtime-preview");
    assert_eq!(config.language, "en");
    assert_eq!(config.vad_threshold_milli as f32 / 1000.0, 0.5);
    assert_eq!(config.silence_duration_ms, 700);
    assert!(config.noise_reduction);
    assert!(config.url.is_none());
}

#[test]
fn config_builder() {
    let config = StreamingSttConfig::new("key").with_language("ru").with_prompt("tech meeting");
    assert_eq!(config.language, "ru");
    assert_eq!(config.prompt.as_deref(), Some("tech meeting"));
}

#[test]
fn openai_stt_builder() {
    let stt = OpenAiStt::new("test-key")
        .with_language("ru")
        .with_model("whisper-1")
        .with_base_url("http://localhost:8080/v1")
        .with_prompt("SuperVox meeting");
    assert_eq!(stt.language, "ru");
    assert_eq!(stt.model, "whisper-1");
    assert_eq!(stt.base_url, "http://localhost:8080/v1");
    assert_eq!(stt.prompt, Some("SuperVox meeting".to_string()));
    assert_eq!(stt.transcription_url(), "http://localhost:8080/v1/audio/transcriptions");
}

#[test]
fn whisper_stt_new() {
    let stt = WhisperStt::new("/tmp/model.bin".to_string(), "en");
    assert_eq!(stt.language, "en");
    assert_eq!(stt.model_path, "/tmp/model.bin");
}

#[test]
fn display_name_is_whisper() {
    let stt = WhisperStt::new("/tmp/model.bin".to_string(), "en");
    assert_eq!(stt.display_name(), "whisper");
    assert_eq!(ParakeetStt::new("/m".to_string(), "en").display_name(), "parakeet-tdt");
}

#[test]
fn response_format_by_model() {
    assert_eq!(response_format_for_model("gpt-4o-transcribe"), "json");
    assert_eq!(response_format_for_model("whisper-1"), "verbose_json");
    assert_eq!(response_format_for_model("gpt"), "verbose_json");
}

#[test]
fn prompt_combination() {
    assert_eq!(combine_prompt(Some("p"), Some("c")), Some("p\n\nContext: c".to_string()));
    assert_eq!(combine_prompt(Some("p"), None), Some("p".to_string()));
    assert_eq!(combine_prompt(None, Some("c")), Some("Context: c".to_string()));
    assert_eq!(combine_prompt(None, None), None);
}

#[test]
fn ws_url() {
    assert_eq!(build_ws_url(None, "m1"), "wss://api.openai.com/v1/realtime?model=m1");
    assert_eq!(build_ws_url(Some("ws://local"), "m2"), "ws://local?model=m2");
}

#[test]
fn encode_audio_event_format() {
    let samples: Vec<i16> = vec![100, -200, 300];
    let event = encode_audio_event(&samples);
    let v: serde_json::Value = serde_json::from_str(&event).unwrap();
    assert_eq!(v["type"], "input_audio_buffer.append");
    assert!(v["audio"].is_string());
    let encoded = v["audio"].as_str().unwrap();
    let decoded = base64::Engine::decode(&base64::engine::general_purpose::STANDARD, encoded).unwrap();
    assert_eq!(decoded.len(), 6);
    assert_eq!(decoded, vec![100, 0, 56, 255, 44, 1]);
}

fn server_event(kind: &str) -> ServerEvent {
    ServerEvent { event_type: Some(kind.to_string()), item_id: None, delta: None, transcript: None, error_message: None }
}

#[test]
fn parse_delta_event() {
    let mut e = server_event("conversation.item.input_audio_transcription.delta");
    e.item_id = Some("item_123".into());
    e.delta = Some("Hello".into());
    match parse_transcript_event(e).unwrap() {
        TranscriptEvent::Delta { item_id, text } => {
            assert_eq!(item_id, "item_123");
            assert_eq!(text, "Hello");
        }
        _ => panic!("Expected Delta event"),
    }
}

#[test]
fn parse_final_event() {
    let mut e = server_event("conversation.item.input_audio_transcription.completed");
    e.item_id = Some("item_456".into());
    e.transcript = Some("Hello, world!".into());
    match parse_transcript_event(e).unwrap() {
        TranscriptEvent::Final { item_id, text } => {
            assert_eq!(item_id, "item_456");
            assert_eq!(text, "Hello, world!");
        }
        _ => panic!("Expected Final event"),
    }
}

#[test]
fn parse_error_event() {
    let mut e = server_event("error");
    e.error_message = Some("Rate limit exceeded".into());
    match parse_transcript_event(e).unwrap() {
        TranscriptEvent::Error(text) => assert_eq!(text, "Rate limit exceeded"),
        _ => panic!("Expected Error event"),
    }
    match parse_transcript_event(server_event("error")).unwrap() {
        TranscriptEvent::Error(text) => assert_eq!(text, "Unknown error"),
        _ => panic!("Expected Error event"),
    }
}

#[test]
fn parse_unknown_event() {
    assert!(parse_transcript_event(server_event("session.created")).is_none());
    assert!(parse_transcript_event(server_event("conversation.item.input_audio_transcription.delta")).is_none());
}
