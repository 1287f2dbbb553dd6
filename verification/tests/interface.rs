use supervox::call::{action_id, Config, Mood};
use supervox::help::keys_for_mode;
use supervox::live::{
    apply_audio_event, pipeline_transcript_event, stops_on_close, AudioEvent, AudioSource, LiveEffect, LiveState,
};
use supervox::navigation::{
    app_event_notice, live_key, mode_label, opening_status_of, route_key, saved_call_status, AppEvent,
    EventNotice, Key, KeyRoute, LiveCommand, Mode,
};
use supervox::prompts::{RollingSummaryArgs, SearchCallsTool, TranslateArgs};
use supervox::voice::TranscriptEvent;

fn test_config() -> Config {
    Config {
        my_language: "ru".into(),
        stt_backend: "realtime".into(),
        llm_model: "test".into(),
        summary_lag_secs: 1,
        capture: "mic".into(),
        llm_backend: "auto".into(),
        ollama_model: "llama3.2:3b".into(),
    }
}

#[test]
fn types_config_defaults() {
    let cfg = Config::default();
    assert_eq!(cfg.my_language, "ru");
    assert_eq!(cfg.stt_backend, "realtime");
    assert_eq!(cfg.llm_model, "gemini-2.5-flash");
    assert_eq!(cfg.summary_lag_secs, 5);
    assert_eq!(cfg.capture, "mic+system");
    assert_eq!(cfg.llm_backend, "auto");
    assert_eq!(cfg.ollama_model, "llama3.2:3b");
}

#[test]
fn config_values_respected() {
    let config = Config { my_language: "de".into(), summary_lag_secs: 10, capture: "mic+system".into(), ..test_config() };
    assert_eq!(config.my_language, "de");
    assert_eq!(config.summary_lag_secs, 10);
    assert!(config.capture.contains("system"));
}

#[test]
fn effective_model_follows_backend() {
    let mut cfg = Config::default();
    assert_eq!(cfg.effective_model(None), "gemini-2.5-flash");
    assert_eq!(cfg.effective_model(Some("ollama")), "llama3.2:3b");
    cfg.llm_backend = "ollama".into();
    assert_eq!(cfg.effective_model(None), "llama3.2:3b");
    assert_eq!(cfg.effective_model(Some("auto")), "gemini-2.5-flash");
}

#[test]
fn mood_display_format() {
    assert_eq!(format!("{:?}", Mood::Positive), "Positive");
    assert_eq!(format!("{:?}", Mood::Mixed), "Mixed");
}

#[test]
fn action_id_deterministic() {
    let id1 = action_id("call-123", "Send proposal");
    let id2 = action_id("call-123", "Send proposal");
    assert_eq!(id1, id2);
    assert_eq!(id1.len(), 8);
}

#[test]
fn action_id_different_inputs() {
    let id1 = action_id("call-123", "Send proposal");
    let id2 = action_id("call-123", "Review budget");
    let id3 = action_id("call-456", "Send proposal");
    assert_ne!(id1, id2);
    assert_ne!(id1, id3);
}

#[test]
fn action_id_is_hex() {
    let id = action_id("test", "test");
    assert!(id.chars().all(|c| c.is_ascii_hexdigit()));
}

#[test]
fn action_id_known_value() {
    assert_eq!(action_id("", ""), "e7ac0786");
    assert_eq!(action_id("call-123", "Send proposal"), "e372d7bd");
}

#[test]
fn keys_for_known_modes() {
    assert!(!keys_for_mode("LIVE").is_empty());
    assert!(!keys_for_mode("ANALYSIS").is_empty());
    assert!(!keys_for_mode("AGENT").is_empty());
}

#[test]
fn keys_for_unknown_mode() {
    assert!(keys_for_mode("UNKNOWN").is_empty());
}

#[test]
fn live_keys_contain_record() {
    let keys = keys_for_mode("LIVE");
    assert!(keys.iter().any(|(k, _)| *k == "r"));
}

#[test]
fn analysis_keys_contain_follow_up() {
    let keys = keys_for_mode("ANALYSIS");
    assert!(keys.iter().any(|(k, _)| *k == "f"));
}

#[test]
fn analysis_keys_contain_export() {
    let keys = keys_for_mode("ANALYSIS");
    assert!(keys.iter().any(|(k, _)| *k == "e"));
}

#[test]
fn history_keys_contain_delete() {
    let keys = keys_for_mode("HISTORY");
    assert!(keys.iter().any(|(k, _)| *k == "d"));
}

#[test]
fn history_keys_not_empty() {
    assert!(!keys_for_mode("HISTORY").is_empty());
}

#[test]
fn live_state_default() {
    let state = LiveState::default();
    assert!(!state.is_recording);
    assert!(state.lines.is_empty());
    assert!(state.current_delta.is_none());
    assert_eq!(state.stt_backend, "realtime");
}

#[test]
fn start_stop_recording() {
    let mut state = LiveState::default();
    state.start_recording(1_000);
    assert!(state.is_recording);
    assert!(state.recording_start.is_some());
    assert_eq!(state.elapsed_secs(4_500), 3);
    state.stop_recording();
    assert!(!state.is_recording);
    assert!(state.current_delta.is_none());
}

#[test]
fn delta_and_final_transcript() {
    let mut state = LiveState::default();
    state.update_delta(AudioSource::Mic, "Hel");
    assert!(state.current_delta.is_some());
    let (src, text) = state.current_delta.as_ref().unwrap();
    assert_eq!(*src, AudioSource::Mic);
    assert_eq!(text, "Hel");
    assert!(state.lines.is_empty());
    state.push_final_transcript(AudioSource::Mic, "Hello world");
    assert!(state.current_delta.is_none());
    assert_eq!(state.lines.len(), 1);
    assert_eq!(state.lines[0].text, "Hello world");
    assert_eq!(state.lines[0].source, AudioSource::Mic);
    assert!(!state.lines[0].is_translation);
}

#[test]
fn push_translation() {
    let mut state = LiveState::default();
    state.push_final_transcript(AudioSource::System, "Bonjour");
    state.push_translation(AudioSource::System, "Привет");
    assert_eq!(state.lines.len(), 2);
    assert!(!state.lines[0].is_translation);
    assert!(state.lines[1].is_translation);
    assert_eq!(state.lines[1].source, AudioSource::System);
}

#[test]
fn transcript_count() {
    let mut state = LiveState::default();
    state.push_final_transcript(AudioSource::Mic, "Hello");
    state.push_translation(AudioSource::Mic, "Привет");
    state.push_final_transcript(AudioSource::System, "Bonjour");
    assert_eq!(state.transcript_count(), 2);
}

#[test]
fn set_summary_multiline() {
    let mut state = LiveState::default();
    state.set_summary("Line 1\nLine 2\nLine 3");
    assert_eq!(state.summary_lines.len(), 3);
    assert_eq!(state.summary_lines[0], "Line 1");
}

#[test]
fn set_summary_follows_str_lines() {
    let mut state = LiveState::default();
    for text in ["", "a\n", "a\r\nb", "\n\nx", "one\r", "tail\n\n"] {
        state.set_summary(text);
        let expected: Vec<String> = text.lines().map(|l| l.to_string()).collect();
        assert_eq!(state.summary_lines, expected, "{text:?}");
    }
}

#[test]
fn audio_events_drive_live_mode() {
    let mut live = LiveState::default();
    let e = apply_audio_event(
        &mut live,
        AudioEvent::Transcript { source: AudioSource::Mic, text: "Hello".into(), is_final: true },
    );
    match e {
        LiveEffect::Forward { translation_id, text, summary_line } => {
            assert_eq!(translation_id, "You-1");
            assert_eq!(text, "Hello");
            assert_eq!(summary_line, "You: Hello");
        }
        _ => panic!("expected forwarding"),
    }
    let e = apply_audio_event(&mut live, AudioEvent::Translation { source_id: "Them-4".into(), text: "Hi".into() });
    assert!(matches!(e, LiveEffect::Nothing));
    assert_eq!(live.lines[1].source, AudioSource::System);
    match apply_audio_event(&mut live, AudioEvent::Error("boom".into())) {
        LiveEffect::Status(s) => assert_eq!(s, "Error: boom"),
        _ => panic!("expected status"),
    }
    live.start_recording(0);
    match apply_audio_event(
        &mut live,
        AudioEvent::Stopped { transcript: "You: hi\n".into(), duration_ms: 1500, audio_path: None },
    ) {
        LiveEffect::SaveCall { transcript, duration_ms, .. } => {
            assert_eq!(transcript, "You: hi\n");
            assert_eq!(duration_ms, 1500);
        }
        _ => panic!("expected save"),
    }
    assert!(!live.is_recording);
}

#[test]
fn pipeline_accumulates_final_lines() {
    let mut full = String::new();
    let ev = pipeline_transcript_event(
        &mut full,
        AudioSource::System,
        TranscriptEvent::Final { item_id: "i".into(), text: "Bonjour".into() },
    );
    assert!(matches!(ev, AudioEvent::Transcript { is_final: true, .. }));
    pipeline_transcript_event(&mut full, AudioSource::Mic, TranscriptEvent::Final { item_id: "j".into(), text: String::new() });
    pipeline_transcript_event(&mut full, AudioSource::Mic, TranscriptEvent::Delta { item_id: "k".into(), text: "x".into() });
    assert_eq!(full, "Them: Bonjour\n");
    match pipeline_transcript_event(&mut full, AudioSource::System, TranscriptEvent::Error("e".into())) {
        AudioEvent::Error(m) => assert_eq!(m, "System STT: e"),
        _ => panic!("expected error"),
    }
    assert!(stops_on_close(AudioSource::Mic));
    assert!(!stops_on_close(AudioSource::System));
}

#[test]
fn key_routing() {
    let live = Mode::Live;
    let hist = Mode::History { return_to: Box::new(Mode::Agent) };
    assert_eq!(route_key(&live, true, true, Key::CtrlC), KeyRoute::StopAndQuit);
    assert_eq!(route_key(&live, true, false, Key::Char('r')), KeyRoute::DismissHelp);
    assert_eq!(route_key(&live, false, false, Key::Char('?')), KeyRoute::ShowHelp);
    assert_eq!(route_key(&hist, false, false, Key::Esc), KeyRoute::LeaveHistory);
    assert_eq!(route_key(&live, false, true, Key::Esc), KeyRoute::Ignore);
    assert_eq!(route_key(&live, false, false, Key::Esc), KeyRoute::Quit);
    assert_eq!(route_key(&live, false, true, Key::Char('q')), KeyRoute::Live);
    assert_eq!(route_key(&Mode::Analysis { file: "f".into() }, false, true, Key::Char('q')), KeyRoute::Quit);
    assert_eq!(route_key(&Mode::Agent, false, false, Key::Char('q')), KeyRoute::Agent);
    assert_eq!(mode_label(&hist), "HISTORY");
}

#[test]
fn live_keys() {
    assert_eq!(live_key(false, Key::Char('h')), LiveCommand::OpenHistory);
    assert_eq!(live_key(true, Key::Char('h')), LiveCommand::Nothing);
    assert_eq!(live_key(false, Key::Char('r')), LiveCommand::StartRecording);
    assert_eq!(live_key(true, Key::Char('s')), LiveCommand::StopRecording);
    assert_eq!(live_key(false, Key::Char('s')), LiveCommand::Nothing);
}

#[test]
fn statuses() {
    assert_eq!(opening_status_of(&Mode::Analysis { file: "a.json".into() }), "Analysis mode — a.json");
    assert_eq!(saved_call_status(true, "3", Ok(())), "Recording stopped (no speech detected)");
    assert_eq!(saved_call_status(false, "3", Ok(())), "Call saved (3s) — switching to Analysis");
    assert_eq!(saved_call_status(false, "3", Err("disk".into())), "Save error: disk");
    match app_event_notice(&AppEvent::AgentError("x".into())) {
        EventNotice::Error(s) => assert_eq!(s, "Agent error: x"),
        _ => panic!("expected error"),
    }
    assert!(matches!(app_event_notice(&AppEvent::AgentDone), EventNotice::Nothing));
}

#[test]
fn tool_messages() {
    let args = RollingSummaryArgs {
        chunks: vec!["Hello".into(), "How are you?".into()],
        prior_summary: Some("- greeting".into()),
        target_lang: "ru".into(),
    };
    let (system, user) = args.messages();
    assert!(system.contains("Write in ru."));
    assert_eq!(user, "Transcript:\nHello\nHow are you?\nPrevious summary:\n- greeting");
    let t = TranslateArgs { text: "hi".into(), from_lang: "en".into(), to_lang: "de".into() };
    let (system, user) = t.messages();
    assert_eq!(system, "You are a translator. Translate the text from en to de. Return ONLY the translated text, no explanations.");
    assert_eq!(user, "hi");
    let tool = SearchCallsTool { calls_dir: "/tmp".into() };
    assert_eq!(tool.name(), "search_calls");
    assert!(tool.is_read_only());
}
