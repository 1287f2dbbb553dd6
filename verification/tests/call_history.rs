use supervox::call::{Call, ThemeCount};
use supervox::history::{format_duration, CallHistoryState};
use supervox::navigation::{finish_delete, handle_history_key, HistoryAction, Key};
use supervox::tags::collect_tags;

fn make_call(id: &str, transcript: &str) -> Call {
    Call {
        id: id.to_string(),
        created_at_ms: 1_767_225_600_000,
        duration_ms: 120_000,
        participants: vec![],
        language: Some("en".into()),
        transcript: transcript.to_string(),
        translation: None,
        tags: vec![],
        audio_path: None,
        bookmarks: vec![],
    }
}

fn tagged(id: &str, tags: &[&str]) -> Call {
    let mut c = make_call(id, "x");
    c.tags = tags.iter().map(|t| t.to_string()).collect();
    c
}

#[test]
fn cursor_bounds_empty() {
    let mut state = CallHistoryState::new(vec![]);
    state.move_up();
    assert_eq!(state.cursor, 0);
    state.move_down();
    assert_eq!(state.cursor, 0);
    assert!(state.selected().is_none());
}

#[test]
fn cursor_navigation() {
    let calls = vec![make_call("1", "Hello"), make_call("2", "World"), make_call("3", "Foo")];
    let mut state = CallHistoryState::new(calls);
    assert_eq!(state.cursor, 0);
    state.move_down();
    assert_eq!(state.cursor, 1);
    state.move_down();
    assert_eq!(state.cursor, 2);
    state.move_down();
    assert_eq!(state.cursor, 2);
    state.move_up();
    assert_eq!(state.cursor, 1);
    state.move_up();
    assert_eq!(state.cursor, 0);
    state.move_up();
    assert_eq!(state.cursor, 0);
}

#[test]
fn selected_returns_correct_call() {
    let calls = vec![make_call("a", "First"), make_call("b", "Second")];
    let mut state = CallHistoryState::new(calls);
    assert_eq!(state.selected().unwrap().id, "a");
    state.move_down();
    assert_eq!(state.selected().unwrap().id, "b");
}

#[test]
fn format_duration_works() {
    assert_eq!(format_duration(0.0_f64 as u64), "0:00");
    assert_eq!(format_duration(65.0_f64 as u64), "1:05");
    assert_eq!(format_duration(3600.0_f64 as u64), "60:00");
}

#[test]
fn format_duration_pads_seconds() {
    assert_eq!(format_duration(609), "10:09");
    assert_eq!(format_duration(59), "0:59");
}

#[test]
fn confirm_delete_initial_state() {
    let state = CallHistoryState::new(vec![make_call("1", "Hello")]);
    assert!(!state.confirm_delete);
}

#[test]
fn confirm_delete_toggle() {
    let mut state = CallHistoryState::new(vec![make_call("1", "Hello")]);
    state.confirm_delete = true;
    assert!(state.confirm_delete);
    state.confirm_delete = false;
    assert!(!state.confirm_delete);
}

#[test]
fn apply_filter_no_tags_passthrough() {
    let c1 = tagged("1", &["meeting"]);
    let c2 = make_call("2", "B");
    let mut state = CallHistoryState::new(vec![c1, c2]);
    state.apply_filter();
    assert_eq!(state.calls.len(), 2);
}

#[test]
fn apply_filter_with_tags() {
    let c1 = tagged("1", &["meeting"]);
    let c2 = tagged("2", &["budget"]);
    let c3 = make_call("3", "C");
    let mut state = CallHistoryState::new(vec![c1, c2, c3]);
    state.active_tags.push("meeting".into());
    state.apply_filter();
    assert_eq!(state.calls.len(), 1);
    assert_eq!(state.calls[0].id, "1");
}

#[test]
fn apply_filter_ignores_tag_case() {
    let c1 = tagged("1", &["Meeting"]);
    let c2 = tagged("2", &["budget"]);
    let mut state = CallHistoryState::new(vec![c1, c2]);
    state.toggle_tag("MEETING");
    assert_eq!(state.calls.len(), 1);
    assert_eq!(state.calls[0].id, "1");
}

#[test]
fn toggle_tag_on_off() {
    let c1 = tagged("1", &["meeting"]);
    let c2 = make_call("2", "B");
    let mut state = CallHistoryState::new(vec![c1, c2]);
    state.toggle_tag("meeting");
    assert!(state.active_tags.contains(&"meeting".to_string()));
    assert_eq!(state.calls.len(), 1);
    state.toggle_tag("meeting");
    assert!(!state.active_tags.contains(&"meeting".to_string()));
    assert_eq!(state.calls.len(), 2);
}

#[test]
fn apply_filter_resets_cursor() {
    let c1 = tagged("1", &["a"]);
    let c2 = tagged("2", &["b"]);
    let mut state = CallHistoryState::new(vec![c1, c2]);
    state.cursor = 1;
    state.active_tags.push("a".into());
    state.apply_filter();
    assert_eq!(state.cursor, 0);
}

#[test]
fn available_tags_populated() {
    let c1 = tagged("1", &["meeting", "budget"]);
    let c2 = tagged("2", &["meeting"]);
    let state = CallHistoryState::new(vec![c1, c2]);
    assert!(!state.available_tags.is_empty());
    assert_eq!(state.available_tags[0].theme, "meeting");
    assert_eq!(state.available_tags[0].count, 2);
}

#[test]
fn collect_tags_lowercases_and_orders_stably() {
    let calls = vec![tagged("1", &["B", "a"]), tagged("2", &["b", "C"]), tagged("3", &["c", "a"])];
    let tags = collect_tags(&calls);
    let got: Vec<(String, usize)> = tags.iter().map(|t| (t.theme.clone(), t.count)).collect();
    assert_eq!(
        got,
        vec![("b".to_string(), 2), ("a".to_string(), 2), ("c".to_string(), 2)]
    );
}

#[test]
fn confirm_delete_preserves_cursor() {
    let calls = vec![make_call("1", "A"), make_call("2", "B"), make_call("3", "C")];
    let mut state = CallHistoryState::new(calls);
    state.move_down();
    state.confirm_delete = true;
    assert_eq!(state.cursor, 1);
    assert_eq!(state.selected().unwrap().id, "2");
}

#[test]
fn history_delete_flow() {
    let calls = vec![make_call("1", "A"), make_call("2", "B")];
    let mut state = CallHistoryState::new(calls);
    state.move_down();
    match handle_history_key(&mut state, Key::Char('d')) {
        HistoryAction::Status(s) => assert_eq!(s, "Delete this call? Press 'y' to confirm"),
        _ => panic!("expected a status"),
    }
    let id = match handle_history_key(&mut state, Key::Char('y')) {
        HistoryAction::Delete(id) => id,
        _ => panic!("expected a deletion"),
    };
    assert_eq!(id, "2");
    let status = finish_delete(&mut state, &id, Ok(()));
    assert_eq!(status, "Deleted call 2");
    assert_eq!(state.calls.len(), 1);
    assert_eq!(state.cursor, 0);
}

#[test]
fn history_delete_cancel_and_failure() {
    let mut state = CallHistoryState::new(vec![make_call("1", "A")]);
    handle_history_key(&mut state, Key::Char('d'));
    match handle_history_key(&mut state, Key::Char('n')) {
        HistoryAction::Status(s) => assert_eq!(s, "Delete cancelled"),
        _ => panic!("expected a status"),
    }
    assert!(!state.confirm_delete);
    let status = finish_delete(&mut state, "1", Err("denied".into()));
    assert_eq!(status, "Delete failed: denied");
    assert_eq!(state.calls.len(), 1);
}

#[test]
fn history_tag_popup() {
    let mut state = CallHistoryState::new(vec![tagged("1", &["Meeting"]), tagged("2", &["budget"])]);
    assert!(matches!(handle_history_key(&mut state, Key::Char('t')), HistoryAction::Nothing));
    assert!(state.show_tag_filter);
    match handle_history_key(&mut state, Key::Enter) {
        HistoryAction::Status(s) => assert_eq!(s, "1 tag filter(s) active"),
        _ => panic!("expected a status"),
    }
    assert_eq!(state.calls.len(), 1);
    handle_history_key(&mut state, Key::Down);
    assert_eq!(state.tag_cursor, 1);
    handle_history_key(&mut state, Key::Down);
    assert_eq!(state.tag_cursor, 1);
    handle_history_key(&mut state, Key::Up);
    match handle_history_key(&mut state, Key::Char(' ')) {
        HistoryAction::Status(s) => assert_eq!(s, "Filters cleared"),
        _ => panic!("expected a status"),
    }
    handle_history_key(&mut state, Key::Esc);
    assert!(!state.show_tag_filter);
}

#[test]
fn history_open_and_quit() {
    let mut state = CallHistoryState::new(vec![make_call("abc", "A")]);
    match handle_history_key(&mut state, Key::Enter) {
        HistoryAction::Open(id) => assert_eq!(id, "abc"),
        _ => panic!("expected open"),
    }
    assert!(matches!(handle_history_key(&mut state, Key::Char('q')), HistoryAction::Quit));
}

#[test]
fn tag_popup_down_on_last_tag_keeps_everything() {
    let mut hs = CallHistoryState::new(vec![]);
    hs.available_tags = vec![
        ThemeCount { theme: "meeting".into(), count: 2 },
        ThemeCount { theme: "budget".into(), count: 1 },
    ];
    hs.show_tag_filter = true;
    hs.tag_cursor = 1;
    let a = handle_history_key(&mut hs, Key::Down);
    assert!(matches!(a, HistoryAction::Nothing));
    assert_eq!(hs.tag_cursor, 1);
    assert!(hs.show_tag_filter);
    assert_eq!(hs.cursor, 0);
    assert!(hs.active_tags.is_empty());
    assert!(hs.calls.is_empty());
}

#[test]
fn cancelled_deletion_keeps_list_and_cursor() {
    let mut hs = CallHistoryState::new(vec![make_call("1", "a"), make_call("2", "b")]);
    hs.move_down();
    hs.confirm_delete = true;
    let a = handle_history_key(&mut hs, Key::Char('n'));
    assert!(matches!(a, HistoryAction::Status(ref m) if m == "Delete cancelled"));
    assert!(!hs.confirm_delete);
    assert_eq!(hs.cursor, 1);
    assert_eq!(hs.calls.len(), 2);

    let mut empty = CallHistoryState::new(vec![]);
    let a = handle_history_key(&mut empty, Key::Char('d'));
    assert!(matches!(a, HistoryAction::Nothing));
    assert!(!empty.confirm_delete);
}

#[test]
fn tag_popup_toggle_filters_shown_calls() {
    let mut hs = CallHistoryState::new(vec![tagged("1", &["Budget"]), tagged("2", &["planning"]), tagged("3", &["budget"])]);
    hs.show_tag_filter = true;
    let budget = hs.available_tags.iter().position(|t| t.theme == "budget").unwrap();
    hs.tag_cursor = budget;
    let a = handle_history_key(&mut hs, Key::Char(' '));
    assert!(matches!(a, HistoryAction::Status(ref m) if m == "1 tag filter(s) active"));
    let ids: Vec<String> = hs.calls.iter().map(|c| c.id.clone()).collect();
    assert_eq!(ids, vec!["1", "3"]);
    assert!(hs.show_tag_filter);
    assert_eq!(hs.tag_cursor, budget);
    assert_eq!(hs.all_calls.len(), 3);
}
