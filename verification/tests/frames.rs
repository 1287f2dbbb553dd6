use serde_json::Value;
use supervox::realtime::{encode_audio_event, instructions_update_frame, session_update_frame, thousandths_string};
use supervox::transcribe::StreamingSttConfig;

fn obj(pairs: Vec<(&str, Value)>) -> Value {
    let mut m = serde_json::Map::new();
    for (k, v) in pairs {
        m.insert(k.to_string(), v);
    }
    Value::Object(m)
}

fn s(v: &str) -> Value {
    Value::String(v.to_string())
}

#[test]
fn instructions_escaped_as_serde() {
    for text in ["plain", "say \"hi\"", "back\\slash", "line\nbreak\r\ttab", "\u{8}\u{c}\u{1}\u{1f}", "é ü 中 😀", ""] {
        let expected = obj(vec![("type", s("session.update")), ("session", obj(vec![("instructions", s(text))]))]);
        assert_eq!(instructions_update_frame(text), expected.to_string(), "{text:?}");
    }
}

#[test]
fn thousandths_as_decimals() {
    assert_eq!(thousandths_string(500), "0.5");
    assert_eq!(thousandths_string(1000), "1.0");
    assert_eq!(thousandths_string(0), "0.0");
    assert_eq!(thousandths_string(450), "0.45");
    assert_eq!(thousandths_string(1234), "1.234");
    assert_eq!(thousandths_string(2050), "2.05");
}

#[test]
fn session_frame_matches_serde() {
    let config = StreamingSttConfig::new("key").with_language("ru").with_prompt("Names: \"Zoë\"");
    let frame = session_update_frame(&config);
    let expected = obj(vec![
        ("type", s("session.update")),
        (
            "session",
            obj(vec![
                ("modalities", Value::Array(vec![s("text")])),
                ("input_audio_format", s("pcm16")),
                ("input_audio_transcription", obj(vec![("model", s("gpt-4o-mini-transcribe")), ("language", s("ru"))])),
                (
                    "turn_detection",
                    obj(vec![
                        ("type", s("server_vad")),
                        ("threshold", Value::from(0.5f64)),
                        ("silence_duration_ms", Value::from(700u32)),
                    ]),
                ),
                ("instructions", s("Names: \"Zoë\"")),
                ("input_audio_noise_reduction", obj(vec![("type", s("near_field"))])),
            ]),
        ),
    ]);
    assert_eq!(frame, expected.to_string());
}

#[test]
fn session_frame_without_options() {
    let mut config = StreamingSttConfig::new("key");
    config.noise_reduction = false;
    let frame = session_update_frame(&config);
    assert_eq!(
        frame,
        "{\"session\":{\"input_audio_format\":\"pcm16\",\"input_audio_transcription\":{\"language\":\"en\",\"model\":\"gpt-4o-mini-transcribe\"},\"modalities\":[\"text\"],\"turn_detection\":{\"silence_duration_ms\":700,\"threshold\":0.5,\"type\":\"server_vad\"}},\"type\":\"session.update\"}"
    );
}

#[test]
fn instructions_frame_matches_serde() {
    let frame = instructions_update_frame("Context: budget\nreview");
    let expected = obj(vec![
        ("type", s("session.update")),
        ("session", obj(vec![("instructions", s("Context: budget\nreview"))])),
    ]);
    assert_eq!(frame, expected.to_string());
}

#[test]
fn session_config_structure() {
    let config = StreamingSttConfig::new("key");
    let session: Value = serde_json::from_str(&session_update_frame(&config)).unwrap();
    assert_eq!(session["type"], "session.update");
    assert_eq!(session["session"]["input_audio_format"], "pcm16");
    assert_eq!(session["session"]["turn_detection"]["type"], "server_vad");
    // Noise reduction enabled by default
    assert!(session["session"]["input_audio_noise_reduction"].is_object());
}

#[test]
fn audio_frame_base64_known_values() {
    assert_eq!(
        encode_audio_event(&vec![1i16, -1]),
        "{\"audio\":\"AQD//w==\",\"type\":\"input_audio_buffer.append\"}"
    );
    assert_eq!(encode_audio_event(&vec![0x4d61i16, 0x006e]), "{\"audio\":\"YU1uAA==\",\"type\":\"input_audio_buffer.append\"}");
    assert_eq!(encode_audio_event(&vec![]), "{\"audio\":\"\",\"type\":\"input_audio_buffer.append\"}");
}
