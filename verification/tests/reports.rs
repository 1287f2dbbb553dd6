use supervox::call::{ActionItem, Call};
use supervox::history::{filter_calls_by_period, visible_scroll, CallHistoryState};
use supervox::intelligence::{summarize_messages, translate_messages, SummaryCollector};
use supervox::reports::{
    action_item_line, confirms_deletion, first_line_preview, history_title, hours_minutes, level_bar, progress_line,
    speakable_sentences,
};
use supervox::speakers::str_lt;
use supervox::transcribe::{choose_stt_backend, transcription_result, SttBackendKind};
use supervox::voice::{parse_mode_string, samples_duration_ms, MicMode, SttError};

fn call_at(id: &str, created_at_ms: i64, duration_ms: u64) -> Call {
    Call {
        id: id.into(),
        created_at_ms,
        duration_ms,
        participants: vec![],
        language: None,
        transcript: "hello".into(),
        translation: None,
        tags: vec![],
        audio_path: None,
        bookmarks: vec![],
    }
}

/// The meter of a float input level, as the interface draws it.
fn audio_level_bar(level: f32) -> String {
    level_bar((level * 10.0).min(10.0) as usize)
}

#[test]
fn audio_level_bar_empty() {
    assert_eq!(audio_level_bar(0.0), "[░░░░░░░░░░]");
}

#[test]
fn audio_level_bar_full() {
    assert_eq!(audio_level_bar(1.0), "[██████████]");
}

#[test]
fn audio_level_bar_half() {
    assert_eq!(audio_level_bar(0.5), "[█████░░░░░]");
}

#[test]
fn level_bar_each_width() {
    assert_eq!(level_bar(3), "[███░░░░░░░]");
    assert_eq!(level_bar(10).chars().count(), 12);
}

#[test]
fn first_line_preview_cuts_first_line() {
    assert_eq!(first_line_preview("Hello world\nsecond", 5), "Hello");
    assert_eq!(first_line_preview("short\r\nnext", 60), "short");
    assert_eq!(first_line_preview("", 60), "");
    assert_eq!(first_line_preview("\nafter", 60), "");
    assert_eq!(first_line_preview("héllo", 2), "hé");
}

#[test]
fn history_title_variants() {
    let state = CallHistoryState::new(vec![]);
    assert_eq!(history_title(&state), " Call History (0) ");

    let calls = vec![call_at("a", 0, 3_600_000), call_at("b", 0, 120_000)];
    let state = CallHistoryState::new(calls);
    assert_eq!(history_title(&state), " Call History (2 calls, 1h 2m total) ");

    let mut tagged = call_at("c", 0, 1_000);
    tagged.tags = vec!["Budget".into()];
    let mut state = CallHistoryState::new(vec![tagged, call_at("d", 0, 1_000)]);
    state.toggle_tag("budget");
    assert_eq!(history_title(&state), " Call History (1/2 calls, filtered) ");
}

#[test]
fn deletion_answers() {
    assert!(confirms_deletion("y\n"));
    assert!(confirms_deletion("  Y  "));
    assert!(!confirms_deletion("yes"));
    assert!(!confirms_deletion(""));
    assert!(!confirms_deletion("n"));
}

#[test]
fn hours_and_minutes() {
    assert_eq!(hours_minutes(0), "0h 0m");
    assert_eq!(hours_minutes(3_725_000), "1h 2m");
    assert_eq!(hours_minutes(59_999), "0h 0m");
}

#[test]
fn action_item_lines() {
    let a = ActionItem { description: "Review proposal".into(), assignee: Some("Alice".into()), deadline: Some("2026-04-01".into()) };
    assert_eq!(action_item_line(&a), "  - Review proposal (@Alice) — due 2026-04-01");
    let b = ActionItem { description: "Call back".into(), assignee: None, deadline: None };
    assert_eq!(action_item_line(&b), "  - Call back");
}

#[test]
fn progress_lines() {
    assert_eq!(progress_line(0, 3, "abc"), "[1/3] Analyzing abc...");
    assert_eq!(progress_line(2, 3, "x"), "[3/3] Analyzing x...");
}

#[test]
fn speakable_sentences_drop_empty() {
    assert_eq!(speakable_sentences("Hello there. How are you?"), vec!["Hello there.", "How are you?"]);
    assert!(speakable_sentences("   ").is_empty());
    assert_eq!(speakable_sentences("One! Two"), vec!["One!", "Two"]);
}

#[test]
fn scroll_follows_cursor() {
    assert_eq!(visible_scroll(0, 0, 5), 0);
    assert_eq!(visible_scroll(7, 0, 5), 3);
    assert_eq!(visible_scroll(2, 1, 5), 1);
}

#[test]
fn period_filter_bounds() {
    let calls = vec![call_at("a", 100, 0), call_at("b", 200, 0), call_at("c", 300, 0)];
    let ids = |v: Vec<Call>| v.into_iter().map(|c| c.id).collect::<Vec<_>>();
    assert_eq!(ids(filter_calls_by_period(&calls, Some(200), None)), vec!["b", "c"]);
    assert_eq!(ids(filter_calls_by_period(&calls, None, Some(300))), vec!["a", "b"]);
    assert_eq!(ids(filter_calls_by_period(&calls, Some(150), Some(250))), vec!["b"]);
    assert_eq!(ids(filter_calls_by_period(&calls, None, None)), vec!["a", "b", "c"]);
}

#[test]
fn summary_collector_batches() {
    let mut c = SummaryCollector::new();
    assert!(c.take_batch().is_none());
    c.collect("You: hi".into());
    c.collect(String::new());
    c.collect("Them: hello".into());
    let (chunks, prior) = c.take_batch().unwrap();
    assert_eq!(chunks, vec!["You: hi", "Them: hello"]);
    assert!(prior.is_none());
    assert!(c.take_batch().is_none());
    c.record_summary("- greeting".into());
    c.collect("You: bye".into());
    let (chunks, prior) = c.take_batch().unwrap();
    assert_eq!(chunks, vec!["You: bye"]);
    assert_eq!(prior.as_deref(), Some("- greeting"));
}

#[test]
fn summary_and_translation_prompts() {
    let chunks = vec!["a".to_string(), "b".to_string()];
    let (system, user) = summarize_messages(&chunks, Some("old"), "English");
    assert!(system.contains("Write in English."));
    assert_eq!(user, "Transcript:\na\nb\nPrevious summary:\nold");
    let (_, user) = summarize_messages(&chunks, None, "English");
    assert_eq!(user, "Transcript:\na\nb");
    let (system, user) = translate_messages("Hola", "English");
    assert!(system.contains("English"));
    assert!(user.contains("Hola"));
}

#[test]
fn backend_choice() {
    assert!(matches!(choose_stt_backend(None, "whisper"), SttBackendKind::Whisper));
    assert!(matches!(choose_stt_backend(Some("parakeet"), "whisper"), SttBackendKind::Parakeet));
    assert!(matches!(choose_stt_backend(Some("bogus"), "realtime"), SttBackendKind::Realtime));
    match choose_stt_backend(None, "other") {
        SttBackendKind::Other(n) => assert_eq!(n, "other"),
        _ => panic!("expected Other"),
    }
}

#[test]
fn transcript_speakers() {
    let labels = vec![Some("A".to_string()), Some("B".to_string()), Some("A".to_string())];
    assert_eq!(supervox::speakers::speakers(&labels), vec!["A", "B"]);
}

#[test]
fn speakers_sorted_without_repeats_or_gaps() {
    let labels = vec![
        Some("speaker_1".to_string()),
        None,
        Some("Bob".to_string()),
        Some("speaker_0".to_string()),
        Some("Bo".to_string()),
        Some("speaker_1".to_string()),
        Some("".to_string()),
    ];
    assert_eq!(supervox::speakers::speakers(&labels), vec!["", "Bo", "Bob", "speaker_0", "speaker_1"]);
    assert!(supervox::speakers::speakers(&vec![None, None]).is_empty());
}

#[test]
fn text_order_matches_str() {
    for (a, b) in [("a", "b"), ("ab", "a"), ("", "x"), ("same", "same"), ("é", "z"), ("Z", "a")] {
        assert_eq!(str_lt(a, b), a < b, "{a} < {b}");
    }
}

#[test]
fn transcription_reply_outcomes() {
    assert!(matches!(
        transcription_result(401, "bad key".into(), None),
        Err(SttError::Api { status: 401, ref body }) if body == "bad key"
    ));
    assert!(matches!(transcription_result(200, String::new(), None), Err(SttError::Empty)));
    assert!(matches!(transcription_result(200, String::new(), Some(String::new())), Err(SttError::Empty)));
    assert_eq!(transcription_result(200, String::new(), Some("hi".into())).ok(), Some("hi".to_string()));
}

#[test]
fn sample_counts_to_milliseconds() {
    assert_eq!(samples_duration_ms(48_000, 48_000), 1000);
    assert_eq!(samples_duration_ms(16_000, 24_000), 666);
    assert_eq!(samples_duration_ms(5, 0), 0);
}

#[test]
fn ascii_modes_and_ids() {
    assert!(matches!(parse_mode_string("STANDARD"), Some(MicMode::Standard)));
    let id = supervox::call::action_id("call-123", "Send proposal");
    assert_eq!(id.len(), 8);
    assert!(id.chars().all(|c| c.is_ascii_hexdigit() && !c.is_ascii_uppercase()));
}
