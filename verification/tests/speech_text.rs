use supervox::sentences::{find_sentence_break, is_sentence_end, split_sentences};
use supervox::text::is_whitespace;

#[test]
fn split_simple_sentences() {
    let text = "Hello. How are you? I'm fine!";
    let sentences = split_sentences(text);
    assert_eq!(sentences.len(), 3);
    assert_eq!(sentences[0], "Hello.");
    assert_eq!(sentences[1], "How are you?");
    assert_eq!(sentences[2], "I'm fine!");
}

#[test]
fn split_no_punctuation() {
    let text = "Hello world";
    let sentences = split_sentences(text);
    assert_eq!(sentences.len(), 1);
    assert_eq!(sentences[0], "Hello world");
}

#[test]
fn split_empty() {
    let sentences = split_sentences("");
    assert!(sentences.is_empty());
}

#[test]
fn split_trailing_text() {
    let text = "First sentence. Then some more";
    let sentences = split_sentences(text);
    assert_eq!(sentences.len(), 2);
    assert_eq!(sentences[0], "First sentence.");
    assert_eq!(sentences[1], "Then some more");
}

#[test]
fn split_abbreviations() {
    let text = "Dr. Smith went home. He was tired.";
    let sentences = split_sentences(text);
    assert_eq!(sentences.len(), 2);
    assert!(sentences[0].contains("Dr. Smith"));
}

#[test]
fn split_initials_stay_together() {
    let sentences = split_sentences("Meet J. Doe tomorrow. Bye.");
    assert_eq!(sentences, vec!["Meet J. Doe tomorrow.", "Bye."]);
}

#[test]
fn split_trims_whitespace_and_keeps_ellipsis() {
    let sentences = split_sentences("  Wow!   Really?\n  ... ok  ");
    assert_eq!(sentences, vec!["Wow!", "Really?", "...", "ok"]);
}

#[test]
fn split_only_before_whitespace_or_end() {
    assert_eq!(split_sentences("Pi is 3.14 today."), vec!["Pi is 3.14 today."]);
    assert_eq!(split_sentences("Use tools, e.g. hammers."), vec!["Use tools, e.g. hammers."]);
    assert_eq!(split_sentences("Go!Now. Done"), vec!["Go!Now.", "Done"]);
    assert_eq!(split_sentences("Done."), vec!["Done."]);
}

#[test]
fn split_every_sentence_is_trimmed_and_non_empty() {
    let text = " a. b!\t c?  d ";
    for s in split_sentences(text) {
        assert!(!s.is_empty());
        assert_eq!(s.trim(), s);
    }
}

#[test]
fn sentence_end_rules() {
    assert!(is_sentence_end("Hello."));
    assert!(!is_sentence_end("I met Mr."));
    assert!(!is_sentence_end("  e.g.  "));
    assert!(!is_sentence_end("A."));
    assert!(!is_sentence_end("Plan B."));
    assert!(is_sentence_end("AB."));
    assert!(is_sentence_end("Stop!"));
}

#[test]
fn find_break_basic() {
    assert_eq!(find_sentence_break("Hello. World"), Some(6));
    assert_eq!(find_sentence_break("No break here"), None);
}

#[test]
fn find_break_multiple() {
    let text = "First. Second. Third";
    let brk = find_sentence_break(text).unwrap();
    assert_eq!(brk, 14);
}

#[test]
fn find_break_end_of_string() {
    assert_eq!(find_sentence_break("Done."), Some(5));
}

#[test]
fn find_break_counts_bytes() {
    assert_eq!(find_sentence_break("Привет. Мир"), Some(13));
    assert_eq!(find_sentence_break("Why?x Ok"), None);
}

#[test]
fn whitespace_matches_std() {
    for u in 0u32..0x3100 {
        if let Some(c) = char::from_u32(u) {
            assert_eq!(is_whitespace(c), c.is_whitespace(), "{u:#x}");
        }
    }
}
