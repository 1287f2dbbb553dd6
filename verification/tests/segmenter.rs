use supervox::vad::{VadEvent, VadProcessor, VadTiming};

/// Chunks of 512 samples, judged by their energy as the energy detector does.
fn judged(samples: &[f32], threshold: f32, rms_threshold: f32) -> Vec<(Vec<f32>, bool)> {
    samples
        .chunks(512)
        .map(|c| {
            let rms = if c.is_empty() {
                0.0
            } else {
                (c.iter().map(|s| s * s).sum::<f32>() / c.len() as f32).sqrt()
            };
            let prob = (rms / rms_threshold).min(1.0);
            (c.to_vec(), prob >= threshold)
        })
        .collect()
}

fn loud(chunks: usize) -> Vec<f32> {
    (0..512 * chunks).map(|i| (i as f32 * 0.1).sin() * 0.5).collect()
}

fn quiet(chunks: usize) -> Vec<f32> {
    vec![0.0_f32; 512 * chunks]
}

fn timing(silence: usize, min_speech: usize, pre: usize) -> VadTiming {
    VadTiming { silence_chunks: silence, min_speech_chunks: min_speech, pre_speech_chunks: pre }
}

#[test]
fn vad_config_defaults() {
    let c = VadTiming::standard();
    assert_eq!(c.silence_chunks, 24);
    assert_eq!(c.min_speech_chunks, 6);
    assert_eq!(c.pre_speech_chunks, 3);
}

#[test]
fn vad_presets() {
    assert_eq!(VadTiming::voice_isolated().silence_chunks, 20);
    assert_eq!(VadTiming::noisy().pre_speech_chunks, 5);
}

#[test]
fn processor_silence_no_events() {
    let mut proc = VadProcessor::new(VadTiming::standard());
    let events = proc.feed(judged(&quiet(32), 0.5, 0.01));
    assert!(events.is_empty());
    assert!(!proc.is_speaking());
}

#[test]
fn processor_speech_detected() {
    let mut proc = VadProcessor::new(timing(3, 2, 1));
    let events = proc.feed(judged(&loud(10), 0.3, 0.01));
    assert!(events.iter().any(|e| matches!(e, VadEvent::SpeechStart)));
    assert!(proc.is_speaking());
    let events2 = proc.feed(judged(&quiet(5), 0.3, 0.01));
    assert!(events2.iter().any(|e| matches!(e, VadEvent::SpeechEnd(_))));
    assert!(!proc.is_speaking());
}

#[test]
fn processor_flush() {
    let mut proc = VadProcessor::new(timing(100, 2, 1));
    proc.feed(judged(&loud(5), 0.3, 0.01));
    assert!(proc.is_speaking());
    let flushed = proc.flush();
    assert!(flushed.is_some());
    assert!(!proc.is_speaking());
}

#[test]
fn processor_short_noise_filtered() {
    let mut proc = VadProcessor::new(timing(3, 10, 1));
    proc.feed(judged(&loud(2), 0.3, 0.01));
    let events = proc.feed(judged(&quiet(5), 0.3, 0.01));
    assert!(!events.iter().any(|e| matches!(e, VadEvent::SpeechEnd(_))));
}

#[test]
fn processor_reset() {
    let mut proc = VadProcessor::new(VadTiming::standard());
    proc.feed(judged(&loud(10), 0.5, 0.01));
    assert!(proc.is_speaking());
    proc.reset();
    assert!(!proc.is_speaking());
}

#[test]
fn segment_is_preroll_plus_everything_since_onset() {
    let mut proc = VadProcessor::new(timing(2, 1, 2));
    let inputs: Vec<(u32, bool)> =
        vec![(1, false), (2, false), (3, false), (4, true), (5, false), (6, true), (7, false), (8, false)];
    let events = proc.feed(inputs);
    assert_eq!(events.len(), 2);
    assert!(matches!(events[0], VadEvent::SpeechStart));
    match &events[1] {
        VadEvent::SpeechEnd(seg) => assert_eq!(seg, &vec![2, 3, 4, 5, 6, 7, 8]),
        _ => panic!("expected a segment"),
    }
}

#[test]
fn preroll_never_exceeds_limit() {
    let mut proc = VadProcessor::new(timing(2, 1, 3));
    let quiet_run: Vec<(u32, bool)> = (0..10).map(|i| (i, false)).collect();
    proc.feed(quiet_run);
    let events = proc.feed(vec![(99, true), (100, false), (101, false)]);
    match &events[1] {
        VadEvent::SpeechEnd(seg) => assert_eq!(seg, &vec![7, 8, 9, 99, 100, 101]),
        _ => panic!("expected a segment"),
    }
}

#[test]
fn flush_drops_short_segment() {
    let mut proc = VadProcessor::new(timing(10, 3, 1));
    proc.feed(vec![(1u8, true), (2, true)]);
    assert!(proc.flush().is_none());
    assert!(!proc.is_speaking());
}

/// Events as comparable values: 0 for a start, the segment for an end.
fn event_list(events: Vec<VadEvent<u32>>) -> Vec<Option<Vec<u32>>> {
    events
        .into_iter()
        .filter_map(|e| match e {
            VadEvent::SpeechStart => Some(None),
            VadEvent::SpeechEnd(seg) => Some(Some(seg)),
            VadEvent::SpeechChunk(_) => None,
        })
        .collect()
}

#[test]
fn feed_in_parts_equals_feed_at_once() {
    let pattern = [false, false, true, true, true, false, false, true, false, false, false, true, true];
    let inputs: Vec<(u32, bool)> = pattern.iter().enumerate().map(|(i, &b)| (i as u32, b)).collect();
    for cut in 0..=inputs.len() {
        let mut whole = VadProcessor::new(timing(2, 2, 1));
        let at_once = event_list(whole.feed(inputs.clone()));
        let mut parts = VadProcessor::new(timing(2, 2, 1));
        let mut in_parts = event_list(parts.feed(inputs[..cut].to_vec()));
        in_parts.extend(event_list(parts.feed(inputs[cut..].to_vec())));
        assert_eq!(at_once, in_parts, "cut at {cut}");
        assert_eq!(whole.is_speaking(), parts.is_speaking());
        assert_eq!(whole.flush(), parts.flush());
    }
}
