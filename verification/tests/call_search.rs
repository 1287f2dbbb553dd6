use supervox::call::Call;
use supervox::context::{agent_system_message, build_calls_context, SYSTEM_PROMPT};
use supervox::search::search_calls;
use supervox::stats::{call_file_name, compute_stats, sort_newest_first, stem_matches, DAY_MS};

fn make_call(id: &str, transcript: &str) -> Call {
    Call {
        id: id.into(),
        created_at_ms: 1_767_225_600_000,
        duration_ms: 60_000,
        participants: vec!["Alice".into()],
        language: Some("en".into()),
        transcript: transcript.into(),
        translation: None,
        tags: vec![],
        audio_path: None,
        bookmarks: vec![],
    }
}

#[test]
fn search_finds_matching_calls() {
    let calls = vec![make_call(
        "test-1",
        "We discussed the budget allocation for Q2 and the new project timeline.",
    )];
    let results = search_calls(&calls, "budget");
    assert_eq!(results.len(), 1);
    assert_eq!(results[0].call_id, "test-1");
    assert!(results[0].snippet.contains("budget"));
}

#[test]
fn search_no_matches() {
    let calls = vec![make_call("test-1", "Hello world")];
    let results = search_calls(&calls, "nonexistent");
    assert!(results.is_empty());
}

#[test]
fn search_empty_dir() {
    let results = search_calls(&vec![], "anything");
    assert!(results.is_empty());
}

#[test]
fn search_case_insensitive() {
    let calls = vec![make_call("test-1", "Budget BUDGET budget")];
    let results = search_calls(&calls, "BUDGET");
    assert_eq!(results.len(), 1);
    assert_eq!(results[0].hits, 3);
    assert_eq!(results[0].transcript_bytes, 20);
}

#[test]
fn search_snippet_window() {
    let text = format!("{}needle{}", "a".repeat(60), "b".repeat(60));
    let calls = vec![make_call("x", &text)];
    let results = search_calls(&calls, "needle");
    assert_eq!(results[0].snippet, format!("{}needle{}", "a".repeat(50), "b".repeat(50)));
}

#[test]
fn search_ranks_by_density_and_keeps_ties_in_order() {
    let calls = vec![
        make_call("sparse", "cat and a long tail of other words here"),
        make_call("dense", "cat cat"),
        make_call("tie", "cat cat"),
    ];
    let results = search_calls(&calls, "cat");
    let ids: Vec<&str> = results.iter().map(|m| m.call_id.as_str()).collect();
    assert_eq!(ids, vec!["dense", "tie", "sparse"]);
}

#[test]
fn search_matches_do_not_overlap() {
    let calls = vec![make_call("x", "aaaa")];
    assert_eq!(search_calls(&calls, "aa")[0].hits, 2);
}

#[test]
fn search_widens_snippet_to_whole_characters() {
    let calls = vec![make_call("x", &format!("{}é{}needle", "b".repeat(48), "c".repeat(49)))];
    let found = search_calls(&calls, "needle");
    assert_eq!(found.len(), 1);
    assert_eq!(found[0].snippet, format!("é{}needle", "c".repeat(49)));
}

#[test]
fn search_multibyte_transcript_keeps_other_calls() {
    let cyrillic = make_call("ru", &format!("{} budget", "а".repeat(30)));
    let plain = make_call("en", "the budget review");
    let found = search_calls(&vec![cyrillic, plain], "budget");
    assert_eq!(found.len(), 2);
    let ru = found.iter().find(|m| m.call_id == "ru").unwrap();
    assert!(ru.snippet.contains("budget"));
    assert!(ru.snippet.starts_with("а"));
    assert_eq!(ru.snippet, format!("{} budget", "а".repeat(25)));
}

#[test]
fn list_calls_returns_sorted() {
    let mut c1 = make_call("first", "First call");
    c1.created_at_ms = 1_767_261_600_000;
    let mut c2 = make_call("second", "Second call");
    c2.created_at_ms = 1_773_568_800_000;
    let calls = sort_newest_first(vec![c1, c2]);
    assert_eq!(calls.len(), 2);
    assert_eq!(calls[0].id, "second");
    assert_eq!(calls[1].id, "first");
}

#[test]
fn file_names_and_stems() {
    let c = make_call("abc123", "Hello world");
    assert_eq!(call_file_name(&c), "20260101-abc123.json");
    assert!(stem_matches("20260101-abc123", "abc123"));
    assert!(!stem_matches("20260101-abc124", "abc123"));
}

#[test]
fn stats_count_recent_calls_and_themes() {
    let now = 1_800_000_000_000_i64;
    let mut a = make_call("a", "x");
    a.created_at_ms = now - 2 * DAY_MS;
    let mut b = make_call("b", "y");
    b.created_at_ms = now - 10 * DAY_MS;
    let mut c = make_call("c", "z");
    c.created_at_ms = now - 40 * DAY_MS;
    let themes = vec![
        Some(vec!["budget".to_string(), "hiring".to_string()]),
        None,
        Some(vec!["hiring".to_string()]),
    ];
    let s = compute_stats(&vec![a, b, c], &themes, now);
    assert_eq!(s.total_calls, 3);
    assert_eq!(s.total_duration_ms, 180_000);
    assert_eq!(s.analyzed_count, 2);
    assert_eq!(s.unanalyzed_count, 1);
    assert_eq!(s.calls_this_week, 1);
    assert_eq!(s.calls_this_month, 2);
    assert_eq!(s.top_themes[0].theme, "hiring");
    assert_eq!(s.top_themes[0].count, 2);
    assert_eq!(s.top_themes[1].theme, "budget");
}

#[test]
fn stats_keep_five_themes() {
    let themes = vec![Some(
        ["a", "b", "c", "d", "e", "f", "f"].iter().map(|s| s.to_string()).collect::<Vec<_>>(),
    )];
    let s = compute_stats(&vec![make_call("a", "x")], &themes, 0);
    let names: Vec<&str> = s.top_themes.iter().map(|t| t.theme.as_str()).collect();
    assert_eq!(names, vec!["f", "a", "b", "c", "d"]);
}

#[test]
fn system_prompt_is_set() {
    assert!(SYSTEM_PROMPT.contains("SuperVox"));
    assert!(SYSTEM_PROMPT.contains("call history"));
}

#[test]
fn build_calls_context_empty() {
    let ctx = build_calls_context(&vec![]);
    assert!(!ctx.is_empty());
    assert_eq!(ctx, "No past calls found.");
}

#[test]
fn build_calls_context_returns_string() {
    let mut c = make_call("id-1", &"w".repeat(250));
    c.duration_ms = 61_900;
    let ctx = build_calls_context(&vec![c]);
    let expected = format!("Recent calls:\n\n--- Call id-1 (2026-01-01 00:00, 61s) ---\n{}\n\n", "w".repeat(200));
    assert_eq!(ctx, expected);
}

#[test]
fn build_calls_context_keeps_ten() {
    let calls: Vec<Call> = (0..12).map(|i| make_call(&format!("c{i}"), "t")).collect();
    let ctx = build_calls_context(&calls);
    assert_eq!(ctx.matches("--- Call").count(), 10);
    assert!(!ctx.contains("c10"));
}

#[test]
fn agent_message_appends_context() {
    let m = agent_system_message("ctx");
    assert_eq!(m, format!("{SYSTEM_PROMPT}\n\nCall history context:\nctx"));
}
