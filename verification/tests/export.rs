use supervox::call::{ActionItem, Call, CallAnalysis, Mood};
use supervox::export::export_call_markdown;

fn make_call(id: &str, transcript: &str) -> Call {
    Call {
        id: id.into(),
        // 2026-01-01 00:00 UTC
        created_at_ms: 1_767_225_600_000,
        duration_ms: 90_000,
        participants: vec!["Alice".into(), "Bob".into()],
        language: Some("en".into()),
        transcript: transcript.into(),
        translation: None,
        tags: vec![],
        audio_path: None,
        bookmarks: vec![],
    }
}

#[test]
fn export_produces_markdown() {
    let call = make_call("cli-exp-1", "Hello from CLI export test");
    let md = export_call_markdown(&call, None);

    assert!(md.starts_with("# Call —"));
    assert!(md.contains("**Duration:** 1m 30s"));
    assert!(md.contains("**Participants:** Alice, Bob"));
    assert!(md.contains("## Transcript"));
    assert!(md.contains("Hello from CLI export test"));
}

#[test]
fn export_whole_document_without_analysis() {
    let mut call = make_call("e-2", "Line one\nLine two");
    call.participants = vec![];
    call.tags = vec!["budget".into(), "q2".into()];
    call.duration_ms = 3_725_999;
    let md = export_call_markdown(&call, None);
    assert_eq!(
        md,
        "# Call — 2026-01-01 00:00\n\n**Duration:** 62m 5s\n**Tags:** budget, q2\n\n## Transcript\n\nLine one\nLine two\n"
    );
}

#[test]
fn export_includes_analysis_sections() {
    let call = make_call("e-3", "Talk");
    let analysis = CallAnalysis {
        summary: "Short talk".into(),
        action_items: vec![ActionItem {
            description: "Send notes".into(),
            assignee: Some("Alice".into()),
            deadline: None,
        }],
        follow_up_draft: None,
        decisions: vec!["Ship it".into()],
        open_questions: vec![],
        mood: Mood::Positive,
        themes: vec![],
    };
    let md = export_call_markdown(&call, Some(&analysis));
    assert_eq!(
        md,
        "# Call — 2026-01-01 00:00\n\n**Duration:** 1m 30s\n**Participants:** Alice, Bob\n\n## Summary\n\nShort talk\n\n## Action Items\n\n  - Send notes (@Alice)\n\n## Decisions\n\n- Ship it\n\n## Transcript\n\nTalk\n"
    );
}
