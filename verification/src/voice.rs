//! Voice-kit vocabulary: microphone modes, speech-to-text and text-to-speech
//! messages, and the errors of the audio devices, with their messages.
use vstd::prelude::*;
use crate::text::{
    ascii_lowercase, chars_of, contains_seq, contains_str, decimal, is_ascii_text, lowercase, str_eq, string_from_chars, to_lowercase,
    trim, trim_chars, u64_to_string,
};
use crate::vad::VadTiming;

verus! {

/// The processing mode of a macOS microphone.
#[derive(Clone, Copy, Debug, PartialEq, Eq, Structural)]
pub enum MicMode {
    /// No processing by the system.
    Standard,
    /// The system's machine-learned noise cancellation.
    VoiceIsolation,
    /// Everything, ambient sound included.
    WideSpectrum,
    /// The mode could not be determined.
    Unknown,
}

/// The name of a microphone mode.
pub open spec fn mic_mode_name(m: MicMode) -> Seq<char> {
    match m {
        MicMode::Standard => "Standard"@,
        MicMode::VoiceIsolation => "Voice Isolation"@,
        MicMode::WideSpectrum => "Wide Spectrum"@,
        MicMode::Unknown => "Unknown"@,
    }
}

/// The mode a helper's answer names, once lowercased.
pub open spec fn mode_from_name(lower: Seq<char>) -> Option<MicMode> {
    if lower == "standard"@ {
        Some(MicMode::Standard)
    } else if lower == "voice_isolation"@ || lower == "voice-isolation"@ || lower == "voiceisolation"@ {
        Some(MicMode::VoiceIsolation)
    } else if lower == "wide_spectrum"@ || lower == "wide-spectrum"@ || lower == "widespectrum"@ {
        Some(MicMode::WideSpectrum)
    } else if lower == "unknown"@ {
        Some(MicMode::Unknown)
    } else {
        None
    }
}

/// What the system profiler's report says of the microphone mode.
pub open spec fn mode_from_profile(report: Seq<char>) -> Option<MicMode> {
    if contains_seq(report, "Voice Isolation"@) {
        Some(MicMode::VoiceIsolation)
    } else if contains_seq(report, "Wide Spectrum"@) {
        Some(MicMode::WideSpectrum)
    } else if contains_seq(report, "Input"@) || contains_seq(report, "Microphone"@) {
        Some(MicMode::Standard)
    } else {
        None
    }
}

impl MicMode {
    /// Whether the mode applies voice isolation.
    pub fn is_voice_isolated(&self) -> (b: bool)
        ensures
            b == (*self == MicMode::VoiceIsolation),
    {
        match self {
            MicMode::VoiceIsolation => true,
            _ => false,
        }
    }

    /// The human-readable name of the mode.
    pub fn as_str(&self) -> (s: &'static str)
        ensures
            s@ == mic_mode_name(*self),
    {
        match self {
            MicMode::Standard => "Standard",
            MicMode::VoiceIsolation => "Voice Isolation",
            MicMode::WideSpectrum => "Wide Spectrum",
            MicMode::Unknown => "Unknown",
        }
    }

    /// The segmentation timing suited to the mode: the voice-isolated preset
    /// for voice isolation, the standard one otherwise.
    pub fn vad_timing(&self) -> (t: VadTiming)
        ensures
            t == (if *self == MicMode::VoiceIsolation { VadTiming::voice_isolated_spec() } else {
                VadTiming::standard_spec()
            }),
    {
        match self {
            MicMode::VoiceIsolation => VadTiming::voice_isolated(),
            _ => VadTiming::standard(),
        }
    }
}

/// Reads a helper's answer: the mode named by the lowercased text.
pub fn parse_mode_string(s: &str) -> (r: Option<MicMode>)
    ensures
        r == mode_from_name(lowercase(s@)),
        is_ascii_text(s@) ==> r == mode_from_name(ascii_lowercase(s@)),
{
    let lower = to_lowercase(s);
    let l = lower.as_str();
    if str_eq(l, "standard") {
        Some(MicMode::Standard)
    } else if str_eq(l, "voice_isolation") || str_eq(l, "voice-isolation") || str_eq(l, "voiceisolation") {
        Some(MicMode::VoiceIsolation)
    } else if str_eq(l, "wide_spectrum") || str_eq(l, "wide-spectrum") || str_eq(l, "widespectrum") {
        Some(MicMode::WideSpectrum)
    } else if str_eq(l, "unknown") {
        Some(MicMode::Unknown)
    } else {
        None
    }
}

/// Reads the output of the mode-detection helper: its trimmed text names
/// the mode.
pub fn mode_from_helper_output(stdout: &str) -> (r: Option<MicMode>)
    ensures
        r == mode_from_name(lowercase(trim(stdout@))),
{
    let c = chars_of(stdout);
    let t = trim_chars(&c);
    let s = string_from_chars(t.as_slice());
    parse_mode_string(s.as_str())
}

/// Reads the system profiler's audio report.
pub fn mode_from_profiler_output(report: &str) -> (r: Option<MicMode>)
    ensures
        r == mode_from_profile(report@),
{
    if contains_str(report, "Voice Isolation") {
        Some(MicMode::VoiceIsolation)
    } else if contains_str(report, "Wide Spectrum") {
        Some(MicMode::WideSpectrum)
    } else if contains_str(report, "Input") || contains_str(report, "Microphone") {
        Some(MicMode::Standard)
    } else {
        None
    }
}

/// Picks the detected mode: the helper's answer, else the profiler's, else
/// unknown.
pub fn detect_mic_mode_impl(from_helper: Option<MicMode>, from_profiler: Option<MicMode>) -> (m: MicMode)
    ensures
        m == match from_helper {
            Some(h) => h,
            None => match from_profiler {
                Some(p) => p,
                None => MicMode::Unknown,
            },
        },
{
    match from_helper {
        Some(h) => h,
        None => match from_profiler {
            Some(p) => p,
            None => MicMode::Unknown,
        },
    }
}

/// A streaming transcript event.
pub enum TranscriptEvent {
    /// Partial text of the turn being spoken.
    Delta { item_id: String, text: String },
    /// Final text of a completed turn.
    Final { item_id: String, text: String },
    /// An error reported by the provider.
    Error(String),
}

/// A command to a streaming speech-to-text session.
pub enum SttInput {
    /// PCM samples, 24 kHz mono.
    Audio(Vec<i16>),
    /// A new context prompt.
    UpdatePrompt(String),
    /// Close the session.
    Close,
}

/// Errors of speech-to-text requests.
pub enum SttError {
    Encoding(String),
    Request(String),
    Api { status: u16, body: String },
    Empty,
    Other(String),
}

/// Errors of streaming speech-to-text sessions.
pub enum SttStreamError {
    Connection(String),
    Transport(String),
    ChannelClosed,
    Other(String),
}

/// Errors of microphone capture.
pub enum MicError {
    NoDevice,
    DeviceConfig(String),
    StreamBuild(String),
    StreamPlay(String),
}

/// Errors of system-audio capture.
pub enum SystemAudioError {
    /// The capture helper was not found where it was looked for.
    BinaryNotFound { paths: String },
    /// The helper could not be started.
    Spawn(String),
    /// The helper exited with an error.
    ProcessError(String),
}

/// Voices of the text-to-speech service.
#[derive(Clone, Copy, Debug, PartialEq, Eq, Structural)]
pub enum TtsVoice {
    Alloy,
    Ash,
    Coral,
    Echo,
    Fable,
    Nova,
    Onyx,
    Sage,
    Shimmer,
}

/// Errors of text-to-speech requests.
pub enum TtsError {
    Request(String),
    Api { status: u16, body: String },
}

/// Commands to the speech player.
pub enum TtsCommand {
    /// Speak the text, sentence by sentence.
    Speak(String),
    /// Stop the current playback.
    Stop,
    /// Stop and end the player.
    Shutdown,
}

/// Errors of the speech player.
pub enum TtsPlayerError {
    Synthesis(String),
    Playback(String),
    Channel(String),
}

/// `prefix` followed by `s`.
fn prefixed(prefix: &str, s: &str) -> (r: String)
    ensures
        r@ == prefix@ + s@,
{
    let mut r = String::from_str(prefix);
    r.append(s);
    r
}

/// The text of an API error: status and body.
fn api_message(status: u16, body: &str) -> (r: String)
    ensures
        r@ == "API error ("@ + decimal(status as nat) + "): "@ + body@,
{
    let mut r = String::from_str("API error (");
    let code = u64_to_string(status as u64);
    r.append(code.as_str());
    r.append("): ");
    r.append(body);
    r
}

/// The message of a speech-to-text error.
pub open spec fn stt_error_text(e: SttError) -> Seq<char> {
    match e {
        SttError::Encoding(m) => "Audio encoding: "@ + m@,
        SttError::Request(m) => "Request: "@ + m@,
        SttError::Api { status, body } => "API error ("@ + decimal(status as nat) + "): "@ + body@,
        SttError::Empty => "Empty transcription"@,
        SttError::Other(m) => m@,
    }
}

impl SttError {
    /// The error's message.
    pub fn message(&self) -> (s: String)
        ensures
            s@ == stt_error_text(*self),
    {
        match self {
            SttError::Encoding(m) => prefixed("Audio encoding: ", m.as_str()),
            SttError::Request(m) => prefixed("Request: ", m.as_str()),
            SttError::Api { status, body } => api_message(*status, body.as_str()),
            SttError::Empty => String::from_str("Empty transcription"),
            SttError::Other(m) => m.clone(),
        }
    }
}

/// The message of a streaming error.
pub open spec fn stt_stream_error_text(e: SttStreamError) -> Seq<char> {
    match e {
        SttStreamError::Connection(m) => "Connection: "@ + m@,
        SttStreamError::Transport(m) => "Transport: "@ + m@,
        SttStreamError::ChannelClosed => "Channel closed"@,
        SttStreamError::Other(m) => m@,
    }
}

impl SttStreamError {
    /// The error's message.
    pub fn message(&self) -> (s: String)
        ensures
            s@ == stt_stream_error_text(*self),
    {
        match self {
            SttStreamError::Connection(m) => prefixed("Connection: ", m.as_str()),
            SttStreamError::Transport(m) => prefixed("Transport: ", m.as_str()),
            SttStreamError::ChannelClosed => String::from_str("Channel closed"),
            SttStreamError::Other(m) => m.clone(),
        }
    }
}

/// The message of a microphone error.
pub open spec fn mic_error_text(e: MicError) -> Seq<char> {
    match e {
        MicError::NoDevice => "No input device available"@,
        MicError::DeviceConfig(m) => "Device config: "@ + m@,
        MicError::StreamBuild(m) => "Stream build: "@ + m@,
        MicError::StreamPlay(m) => "Stream play: "@ + m@,
    }
}

impl MicError {
    /// The error's message.
    pub fn message(&self) -> (s: String)
        ensures
            s@ == mic_error_text(*self),
    {
        match self {
            MicError::NoDevice => String::from_str("No input device available"),
            MicError::DeviceConfig(m) => prefixed("Device config: ", m.as_str()),
            MicError::StreamBuild(m) => prefixed("Stream build: ", m.as_str()),
            MicError::StreamPlay(m) => prefixed("Stream play: ", m.as_str()),
        }
    }
}

/// The message of a system-audio error.
pub open spec fn system_audio_error_text(e: SystemAudioError) -> Seq<char> {
    match e {
        SystemAudioError::BinaryNotFound { paths } =>
            "system-audio-tap binary not found (searched: "@ + paths@ + ")"@,
        SystemAudioError::Spawn(m) => "Spawn: "@ + m@,
        SystemAudioError::ProcessError(m) => "Process exited: "@ + m@,
    }
}

impl SystemAudioError {
    /// The error's message.
    pub fn message(&self) -> (s: String)
        ensures
            s@ == system_audio_error_text(*self),
    {
        match self {
            SystemAudioError::BinaryNotFound { paths } => {
                let mut r = String::from_str("system-audio-tap binary not found (searched: ");
                r.append(paths.as_str());
                r.append(")");
                r
            },
            SystemAudioError::Spawn(m) => prefixed("Spawn: ", m.as_str()),
            SystemAudioError::ProcessError(m) => prefixed("Process exited: ", m.as_str()),
        }
    }
}

/// The name of a voice in requests.
pub open spec fn voice_name(v: TtsVoice) -> Seq<char> {
    match v {
        TtsVoice::Alloy => "alloy"@,
        TtsVoice::Ash => "ash"@,
        TtsVoice::Coral => "coral"@,
        TtsVoice::Echo => "echo"@,
        TtsVoice::Fable => "fable"@,
        TtsVoice::Nova => "nova"@,
        TtsVoice::Onyx => "onyx"@,
        TtsVoice::Sage => "sage"@,
        TtsVoice::Shimmer => "shimmer"@,
    }
}

impl TtsVoice {
    /// The name of the voice in requests.
    pub fn as_str(&self) -> (s: &'static str)
        ensures
            s@ == voice_name(*self),
    {
        match self {
            TtsVoice::Alloy => "alloy",
            TtsVoice::Ash => "ash",
            TtsVoice::Coral => "coral",
            TtsVoice::Echo => "echo",
            TtsVoice::Fable => "fable",
            TtsVoice::Nova => "nova",
            TtsVoice::Onyx => "onyx",
            TtsVoice::Sage => "sage",
            TtsVoice::Shimmer => "shimmer",
        }
    }
}

/// The message of a text-to-speech error.
pub open spec fn tts_error_text(e: TtsError) -> Seq<char> {
    match e {
        TtsError::Request(m) => "Request: "@ + m@,
        TtsError::Api { status, body } => "API error ("@ + decimal(status as nat) + "): "@ + body@,
    }
}

impl TtsError {
    /// The error's message.
    pub fn message(&self) -> (s: String)
        ensures
            s@ == tts_error_text(*self),
    {
        match self {
            TtsError::Request(m) => prefixed("Request: ", m.as_str()),
            TtsError::Api { status, body } => api_message(*status, body.as_str()),
        }
    }
}

/// The message of a player error.
pub open spec fn tts_player_error_text(e: TtsPlayerError) -> Seq<char> {
    match e {
        TtsPlayerError::Synthesis(m) => "TTS synthesis: "@ + m@,
        TtsPlayerError::Playback(m) => "Playback: "@ + m@,
        TtsPlayerError::Channel(m) => "Channel: "@ + m@,
    }
}

impl TtsPlayerError {
    /// The error's message.
    pub fn message(&self) -> (s: String)
        ensures
            s@ == tts_player_error_text(*self),
    {
        match self {
            TtsPlayerError::Synthesis(m) => prefixed("TTS synthesis: ", m.as_str()),
            TtsPlayerError::Playback(m) => prefixed("Playback: ", m.as_str()),
            TtsPlayerError::Channel(m) => prefixed("Channel: ", m.as_str()),
        }
    }
}

/// The length in whole milliseconds of `samples` samples taken at
/// `sample_rate` per second; zero when the rate is zero.
pub fn samples_duration_ms(samples: u64, sample_rate: u32) -> (r: u64)
    requires
        samples * 1000 <= u64::MAX,
    ensures
        r == if sample_rate == 0 { 0 } else { (samples * 1000) / (sample_rate as int) },
{
    if sample_rate > 0 {
        (samples * 1000) / (sample_rate as u64)
    } else {
        0
    }
}

} // verus!
