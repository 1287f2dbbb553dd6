//! The realtime speech-to-text protocol: endpoint, audio frames and the
//! reading of server events.
use vstd::prelude::*;
use crate::call::hex_digit;
use crate::text::{decimal, decimal_chars, digit, digit_char, string_from_chars, u64_to_string};
use crate::transcribe::StreamingSttConfig;
use crate::voice::TranscriptEvent;

verus! {

/// The realtime endpoint used when none is configured.
pub const DEFAULT_REALTIME_URL: &'static str = "wss://api.openai.com/v1/realtime";

/// The URL of a realtime session: the endpoint (the default one when none
/// is given) with the model as query.
pub fn build_ws_url(url: Option<&str>, model: &str) -> (r: String)
    ensures
        r@ == (match url {
            Some(u) => u@,
            None => DEFAULT_REALTIME_URL@,
        }) + "?model="@ + model@,
{
    let mut s = match url {
        Some(u) => String::from_str(u),
        None => String::from_str(DEFAULT_REALTIME_URL),
    };
    s.append("?model=");
    s.append(model);
    s
}

/// The two little-endian bytes of a sample.
pub open spec fn le_bytes(s: i16) -> Seq<u8> {
    seq![((s as u16) % 256) as u8, ((s as u16) / 256) as u8]
}

/// The little-endian bytes of the samples, in order.
pub open spec fn pcm_bytes(samples: Seq<i16>) -> Seq<u8>
    decreases samples.len(),
{
    if samples.len() == 0 {
        Seq::empty()
    } else {
        pcm_bytes(samples.drop_last()) + le_bytes(samples.last())
    }
}

/// The samples as 16-bit little-endian PCM bytes.
pub fn pcm16_bytes(samples: &Vec<i16>) -> (r: Vec<u8>)
    ensures
        r@ == pcm_bytes(samples@),
{
    let mut r: Vec<u8> = Vec::new();
    let mut i: usize = 0;
    while i < samples.len()
        invariant
            i <= samples@.len(),
            r@ == pcm_bytes(samples@.take(i as int)),
        decreases samples.len() - i,
    {
        let s = samples[i];
        let u = s as u16;
        let lo = (u & 0xff) as u8;
        let hi = (u >> 8) as u8;
        proof {
            assert(u & 0xff == u % 256) by (bit_vector);
            assert(u >> 8 == u / 256) by (bit_vector);
            assert(samples@.take(i + 1).drop_last() =~= samples@.take(i as int));
        }
        let ghost before = r@;
        r.push(lo);
        r.push(hi);
        proof {
            assert(r@ =~= before + le_bytes(s));
        }
        i = i + 1;
    }
    proof {
        assert(samples@.take(i as int) =~= samples@);
    }
    r
}

/// The character of a six-bit value in the standard base64 alphabet
/// (`A`-`Z`, `a`-`z`, `0`-`9`, `+`, `/`).
pub open spec fn base64_digit(n: nat) -> char {
    if n < 26 {
        ((n + 65) as u32) as char
    } else if n < 52 {
        ((n - 26 + 97) as u32) as char
    } else if n < 62 {
        ((n - 52 + 48) as u32) as char
    } else if n == 62 {
        '+'
    } else {
        '/'
    }
}

/// The standard base64 text of the bytes (RFC 4648 alphabet, padded with
/// `=`): each group of three bytes gives four characters, a last group of
/// one or two bytes gives two or three characters and the padding.
pub open spec fn base64_standard(bytes: Seq<u8>) -> Seq<char>
    decreases bytes.len(),
{
    if bytes.len() == 0 {
        Seq::empty()
    } else if bytes.len() == 1 {
        let b0 = bytes[0] as nat;
        seq![base64_digit(b0 / 4), base64_digit((b0 % 4) * 16), '=', '=']
    } else if bytes.len() == 2 {
        let b0 = bytes[0] as nat;
        let b1 = bytes[1] as nat;
        seq![base64_digit(b0 / 4), base64_digit((b0 % 4) * 16 + b1 / 16), base64_digit((b1 % 16) * 4), '=']
    } else {
        let b0 = bytes[0] as nat;
        let b1 = bytes[1] as nat;
        let b2 = bytes[2] as nat;
        seq![
            base64_digit(b0 / 4),
            base64_digit((b0 % 4) * 16 + b1 / 16),
            base64_digit((b1 % 16) * 4 + b2 / 64),
            base64_digit(b2 % 64),
        ] + base64_standard(bytes.skip(3))
    }
}

/// `base64::engine::general_purpose::STANDARD.encode`: the padded standard
/// base64 text of the bytes.
#[verifier::external_body]
fn base64_encode(bytes: &[u8]) -> (r: String)
    ensures
        r@ == base64_standard(bytes@),
{
    base64::Engine::encode(&base64::engine::general_purpose::STANDARD, bytes)
}

/// The frame that appends audio to the session's input buffer: a JSON
/// object with the samples as base64 PCM and the event type (keys in
/// alphabetical order).
pub fn encode_audio_event(samples: &Vec<i16>) -> (r: String)
    ensures
        r@ == "{\"audio\":\""@ + base64_standard(pcm_bytes(samples@)) + "\",\"type\":\"input_audio_buffer.append\"}"@,
{
    let bytes = pcm16_bytes(samples);
    let b64 = base64_encode(bytes.as_slice());
    let mut s = String::from_str("{\"audio\":\"");
    s.append(b64.as_str());
    s.append("\",\"type\":\"input_audio_buffer.append\"}");
    s
}

/// The fields of a server event that transcription reads; a field that is
/// absent or not a string is `None`.
pub struct ServerEvent {
    pub event_type: Option<String>,
    pub item_id: Option<String>,
    pub delta: Option<String>,
    pub transcript: Option<String>,
    pub error_message: Option<String>,
}

/// A string field, empty when absent.
pub open spec fn or_empty(o: Option<String>) -> Seq<char> {
    match o {
        Some(s) => s@,
        None => Seq::empty(),
    }
}

/// The transcript event a server event stands for, if any: a non-empty
/// delta, a completed transcription, or an error (with a stock message when
/// it carries none).
pub open spec fn transcript_event_of(e: ServerEvent) -> Option<(int, Seq<char>, Seq<char>)> {
    match e.event_type {
        Some(t) => if t@ == "conversation.item.input_audio_transcription.delta"@ {
            if or_empty(e.delta).len() == 0 { None } else { Some((0, or_empty(e.item_id), or_empty(e.delta))) }
        } else if t@ == "conversation.item.input_audio_transcription.completed"@ {
            Some((1, or_empty(e.item_id), or_empty(e.transcript)))
        } else if t@ == "error"@ {
            Some((2, Seq::empty(), match e.error_message {
                Some(m) => m@,
                None => "Unknown error"@,
            }))
        } else {
            None
        },
        None => None,
    }
}

/// The shape of a transcript event: its kind (0 delta, 1 final, 2 error),
/// item id and text.
pub open spec fn event_shape(e: TranscriptEvent) -> (int, Seq<char>, Seq<char>) {
    match e {
        TranscriptEvent::Delta { item_id, text } => (0, item_id@, text@),
        TranscriptEvent::Final { item_id, text } => (1, item_id@, text@),
        TranscriptEvent::Error(m) => (2, Seq::empty(), m@),
    }
}

/// A string field, empty when absent.
fn take_or_empty(o: Option<String>) -> (s: String)
    ensures
        s@ == or_empty(o),
{
    match o {
        Some(s) => s,
        None => String::new(),
    }
}

/// Reads a server event as a transcript event.
pub fn parse_transcript_event(e: ServerEvent) -> (r: Option<TranscriptEvent>)
    ensures
        match r {
            Some(t) => transcript_event_of(e) == Some(event_shape(t)),
            None => transcript_event_of(e) is None,
        },
{
    let ghost e0 = e;
    match e.event_type {
        Some(t) => {
            let ts = t.as_str();
            if crate::text::str_eq(ts, "conversation.item.input_audio_transcription.delta") {
                let text = take_or_empty(e.delta);
                if text.as_str().is_empty() {
                    None
                } else {
                    Some(TranscriptEvent::Delta { item_id: take_or_empty(e.item_id), text })
                }
            } else if crate::text::str_eq(ts, "conversation.item.input_audio_transcription.completed") {
                let text = take_or_empty(e.transcript);
                Some(TranscriptEvent::Final { item_id: take_or_empty(e.item_id), text })
            } else if crate::text::str_eq(ts, "error") {
                let m = match e.error_message {
                    Some(m) => m,
                    None => String::from_str("Unknown error"),
                };
                Some(TranscriptEvent::Error(m))
            } else {
                None
            }
        },
        None => None,
    }
}


/// How a character is written inside a JSON string: quotes, backslashes and
/// control characters escaped as `serde_json` escapes them, the rest as is.
pub open spec fn json_char(c: char) -> Seq<char> {
    if c == '"' {
        seq!['\\', '"']
    } else if c == '\\' {
        seq!['\\', '\\']
    } else if c == '\n' {
        seq!['\\', 'n']
    } else if c == '\r' {
        seq!['\\', 'r']
    } else if c == '\t' {
        seq!['\\', 't']
    } else if c == '\x08' {
        seq!['\\', 'b']
    } else if c == '\x0c' {
        seq!['\\', 'f']
    } else if (c as u32) < 0x20 {
        seq!['\\', 'u', '0', '0', hex_digit(((c as u32) / 16) as nat), hex_digit(((c as u32) % 16) as nat)]
    } else {
        seq![c]
    }
}

/// The characters of a text as written inside a JSON string.
pub open spec fn json_chars(s: Seq<char>) -> Seq<char>
    decreases s.len(),
{
    if s.len() == 0 {
        Seq::empty()
    } else {
        json_chars(s.drop_last()) + json_char(s.last())
    }
}

/// A text as a JSON string literal.
pub open spec fn json_string(s: Seq<char>) -> Seq<char> {
    seq!['"'] + json_chars(s) + seq!['"']
}

/// `serde_json::to_string` on a string: the quoted JSON literal, escaped
/// by the escape table of `serde_json`'s serializer (quotes, backslashes and
/// control characters; `\u00XX` with lowercase hex for the control
/// characters without a short form). Serializing a string into memory does
/// not fail, so the error arm is never taken.
#[verifier::external_body]
fn json_string_of(s: &str) -> (r: String)
    ensures
        r@ == json_string(s@),
{
    match serde_json::to_string(s) {
        Ok(t) => t,
        Err(_) => String::new(),
    }
}

/// The digits after the point of a number of thousandths below a thousand:
/// trailing zeros dropped, one digit kept.
pub open spec fn fraction_digits(r: nat) -> Seq<char> {
    if r % 100 == 0 {
        seq![digit_char(r / 100)]
    } else if r % 10 == 0 {
        seq![digit_char(r / 100), digit_char((r / 10) % 10)]
    } else {
        seq![digit_char(r / 100), digit_char((r / 10) % 10), digit_char(r % 10)]
    }
}

/// A number of thousandths as a decimal number, e.g. `0.5` for 500 and
/// `1.0` for 1000.
pub open spec fn thousandths_text(m: nat) -> Seq<char> {
    decimal(m / 1000) + seq!['.'] + fraction_digits(m % 1000)
}

/// Writes a number of thousandths as a decimal number.
pub fn thousandths_string(m: u32) -> (r: String)
    ensures
        r@ == thousandths_text(m as nat),
{
    let mut v = decimal_chars((m / 1000) as u64);
    v.push('.');
    let f = m % 1000;
    v.push(digit((f / 100) as u64));
    if f % 100 != 0 {
        v.push(digit(((f / 10) % 10) as u64));
        if f % 10 != 0 {
            v.push(digit((f % 10) as u64));
        }
    }
    proof {
        assert(v@ =~= thousandths_text(m as nat));
    }
    string_from_chars(v.as_slice())
}

/// The frame that configures a realtime session: text output, 16-bit PCM
/// input transcribed in `language`, server-side turn detection with the
/// threshold (in thousandths) and the silence that ends a turn, and, when
/// asked for, near-field noise reduction and instructions. Keys are in
/// alphabetical order, as `serde_json` writes its maps.
pub open spec fn session_frame(
    language: Seq<char>,
    prompt: Option<Seq<char>>,
    threshold_milli: nat,
    silence_ms: nat,
    noise_reduction: bool,
) -> Seq<char> {
    "{\"session\":{\"input_audio_format\":\"pcm16\","@ + (if noise_reduction {
        "\"input_audio_noise_reduction\":{\"type\":\"near_field\"},"@
    } else {
        Seq::empty()
    }) + "\"input_audio_transcription\":{\"language\":"@ + json_string(language)
        + ",\"model\":\"gpt-4o-mini-transcribe\"},"@ + (match prompt {
        Some(p) => "\"instructions\":"@ + json_string(p) + ","@,
        None => Seq::empty(),
    }) + "\"modalities\":[\"text\"],\"turn_detection\":{\"silence_duration_ms\":"@ + decimal(silence_ms)
        + ",\"threshold\":"@ + thousandths_text(threshold_milli) + ",\"type\":\"server_vad\"}},\"type\":\"session.update\"}"@
}

/// The view of an optional string.
pub open spec fn opt_view(o: Option<String>) -> Option<Seq<char>> {
    match o {
        Some(s) => Some(s@),
        None => None,
    }
}

/// The frame that configures a realtime session with these settings.
pub fn session_update_frame(config: &StreamingSttConfig) -> (r: String)
    ensures
        r@ == session_frame(
            config.language@,
            opt_view(config.prompt),
            config.vad_threshold_milli as nat,
            config.silence_duration_ms as nat,
            config.noise_reduction,
        ),
{
    let mut s = String::from_str("{\"session\":{\"input_audio_format\":\"pcm16\",");
    let ghost head = s@;
    if config.noise_reduction {
        s.append("\"input_audio_noise_reduction\":{\"type\":\"near_field\"},");
    }
    let ghost with_noise = s@;
    s.append("\"input_audio_transcription\":{\"language\":");
    let lang = json_string_of(config.language.as_str());
    s.append(lang.as_str());
    s.append(",\"model\":\"gpt-4o-mini-transcribe\"},");
    let ghost with_lang = s@;
    match &config.prompt {
        Some(p) => {
            s.append("\"instructions\":");
            let q = json_string_of(p.as_str());
            s.append(q.as_str());
            s.append(",");
        },
        None => {},
    }
    let ghost with_prompt = s@;
    s.append("\"modalities\":[\"text\"],\"turn_detection\":{\"silence_duration_ms\":");
    let silence = u64_to_string(config.silence_duration_ms as u64);
    s.append(silence.as_str());
    s.append(",\"threshold\":");
    let t = thousandths_string(config.vad_threshold_milli);
    s.append(t.as_str());
    s.append(",\"type\":\"server_vad\"}},\"type\":\"session.update\"}");
    proof {
        let noise_part = if config.noise_reduction {
            "\"input_audio_noise_reduction\":{\"type\":\"near_field\"},"@
        } else {
            Seq::<char>::empty()
        };
        let prompt_part = match opt_view(config.prompt) {
            Some(p) => "\"instructions\":"@ + json_string(p) + ","@,
            None => Seq::<char>::empty(),
        };
        assert(with_noise =~= head + noise_part);
        assert(with_prompt =~= with_lang + prompt_part);
        assert(s@ =~= session_frame(
            config.language@,
            opt_view(config.prompt),
            config.vad_threshold_milli as nat,
            config.silence_duration_ms as nat,
            config.noise_reduction,
        ));
    }
    s
}

/// The frame that replaces a session's instructions.
pub fn instructions_update_frame(prompt: &str) -> (r: String)
    ensures
        r@ == "{\"session\":{\"instructions\":"@ + json_string(prompt@) + "},\"type\":\"session.update\"}"@,
{
    let mut s = String::from_str("{\"session\":{\"instructions\":");
    let q = json_string_of(prompt);
    s.append(q.as_str());
    s.append("},\"type\":\"session.update\"}");
    s
}

} // verus!
