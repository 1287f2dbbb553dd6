//! Live mode: the transcript on screen, and how audio-pipeline events change
//! it.
use vstd::prelude::*;
use crate::text::{chars_of, decimal, string_from_chars, u64_to_string};
use crate::voice::TranscriptEvent;

verus! {

/// Who is speaking.
#[derive(Clone, Copy, Debug, PartialEq, Eq, Structural)]
pub enum AudioSource {
    /// The local microphone: the user.
    Mic,
    /// The system's audio output: the other party.
    System,
}

/// The speaker label of a source.
pub open spec fn source_label(s: AudioSource) -> Seq<char> {
    match s {
        AudioSource::Mic => "You"@,
        AudioSource::System => "Them"@,
    }
}

impl AudioSource {
    /// The speaker label: "You" for the microphone, "Them" for the system.
    pub fn label(&self) -> (s: &'static str)
        ensures
            s@ == source_label(*self),
    {
        match self {
            AudioSource::Mic => "You",
            AudioSource::System => "Them",
        }
    }
}

/// One line of the live transcript: speech, or its translation.
pub struct TranscriptLine {
    pub source: AudioSource,
    pub text: String,
    pub is_translation: bool,
}

/// State of live mode.
pub struct LiveState {
    pub lines: Vec<TranscriptLine>,
    pub summary_lines: Vec<String>,
    /// The partial text of the turn being spoken, shown dimmed.
    pub current_delta: Option<(AudioSource, String)>,
    pub is_recording: bool,
    /// When recording started, in milliseconds of the caller's clock.
    pub recording_start: Option<u64>,
    pub stt_backend: String,
}

/// The lines of a text as `str::lines` gives them: split at line feeds,
/// a carriage return before a feed dropped, no empty last line.
pub open spec fn text_lines(s: Seq<char>) -> Seq<Seq<char>> {
    let (done, rest) = lines_fold(s);
    if rest.len() > 0 { done.push(rest) } else { done }
}

/// A line without its trailing carriage return.
pub open spec fn strip_cr(l: Seq<char>) -> Seq<char> {
    if l.len() > 0 && l.last() == '\r' { l.drop_last() } else { l }
}

/// The finished lines and the pending one after reading `s`.
pub open spec fn lines_fold(s: Seq<char>) -> (Seq<Seq<char>>, Seq<char>)
    decreases s.len(),
{
    if s.len() == 0 {
        (Seq::empty(), Seq::empty())
    } else {
        let (done, cur) = lines_fold(s.drop_last());
        if s.last() == '\n' {
            (done.push(strip_cr(cur)), Seq::empty())
        } else {
            (done, cur.push(s.last()))
        }
    }
}

/// Whether a recording is on, when it started, and the backend shown, are
/// as they were.
pub open spec fn same_session(o: LiveState, n: LiveState) -> bool {
    &&& n.is_recording == o.is_recording
    &&& n.recording_start == o.recording_start
    &&& n.stt_backend@ == o.stt_backend@
}

/// Number of speech lines (not translations).
pub open spec fn speech_line_count(lines: Seq<TranscriptLine>) -> nat
    decreases lines.len(),
{
    if lines.len() == 0 {
        0
    } else {
        speech_line_count(lines.drop_last()) + if lines.last().is_translation { 0nat } else { 1nat }
    }
}

/// The views of a list of strings.
pub open spec fn views_of(v: Seq<String>) -> Seq<Seq<char>> {
    v.map_values(|s: String| s@)
}

/// The lines of a text (`str::lines`).
pub fn split_lines(text: &str) -> (r: Vec<String>)
    ensures
        views_of(r@) == text_lines(text@),
{
    let c = chars_of(text);
    let mut done: Vec<String> = Vec::new();
    let mut cur: Vec<char> = Vec::new();
    let mut i: usize = 0;
    while i < c.len()
        invariant
            i <= c@.len(),
            c@ == text@,
            (views_of(done@), cur@) == lines_fold(c@.take(i as int)),
        decreases c.len() - i,
    {
        proof {
            assert(c@.take(i + 1).drop_last() =~= c@.take(i as int));
            assert(c@.take(i + 1).last() == c@[i as int]);
        }
        if c[i] == '\n' {
            let line = strip_cr_chars(&cur);
            let ghost before = views_of(done@);
            done.push(string_from_chars(line.as_slice()));
            proof {
                assert(views_of(done@) =~= before.push(strip_cr(cur@)));
            }
            cur = Vec::new();
        } else {
            cur.push(c[i]);
        }
        i = i + 1;
    }
    proof {
        assert(c@.take(i as int) =~= c@);
    }
    if cur.len() > 0 {
        let ghost before = views_of(done@);
        done.push(string_from_chars(cur.as_slice()));
        proof {
            assert(views_of(done@) =~= before.push(cur@));
        }
    }
    done
}

/// A line without its trailing carriage return.
fn strip_cr_chars(l: &Vec<char>) -> (r: Vec<char>)
    ensures
        r@ == strip_cr(l@),
{
    let mut r: Vec<char> = Vec::new();
    let n: usize = if l.len() > 0 && l[l.len() - 1] == '\r' { l.len() - 1 } else { l.len() };
    let mut i: usize = 0;
    while i < n
        invariant
            n <= l@.len(),
            i <= n,
            r@ == l@.take(i as int),
        decreases n - i,
    {
        r.push(l[i]);
        i = i + 1;
        proof {
            assert(r@ =~= l@.take(i as int));
        }
    }
    proof {
        if l@.len() > 0 && l@.last() == '\r' {
            assert(l@.take(n as int) =~= l@.drop_last());
        } else {
            assert(l@.take(n as int) =~= l@);
        }
    }
    r
}

impl Default for LiveState {
    /// A fresh live view: nothing recorded, realtime recognition.
    fn default() -> (s: Self)
        ensures
            s.lines@.len() == 0,
            s.summary_lines@.len() == 0,
            s.current_delta is None,
            !s.is_recording,
            s.recording_start is None,
            s.stt_backend@ == "realtime"@,
    {
        LiveState {
            lines: Vec::new(),
            summary_lines: Vec::new(),
            current_delta: None,
            is_recording: false,
            recording_start: None,
            stt_backend: String::from_str("realtime"),
        }
    }
}

impl LiveState {
    /// Whole seconds since recording started, 0 when it has not.
    pub fn elapsed_secs(&self, now_ms: u64) -> (s: u64)
        ensures
            s == match self.recording_start {
                Some(t) => if now_ms >= t { ((now_ms - t) / 1000) as u64 } else { 0 },
                None => 0,
            },
    {
        match self.recording_start {
            Some(t) => if now_ms >= t { (now_ms - t) / 1000 } else { 0 },
            None => 0,
        }
    }

    /// Starts a recording at `now_ms`: clears the transcript, the summary and
    /// the partial text.
    pub fn start_recording(&mut self, now_ms: u64)
        ensures
            final(self).is_recording,
            final(self).recording_start == Some(now_ms),
            final(self).lines@.len() == 0,
            final(self).summary_lines@.len() == 0,
            final(self).current_delta is None,
            final(self).stt_backend == old(self).stt_backend,
    {
        self.is_recording = true;
        self.recording_start = Some(now_ms);
        self.lines.clear();
        self.summary_lines.clear();
        self.current_delta = None;
    }

    /// Stops the recording and drops the partial text.
    pub fn stop_recording(&mut self)
        ensures
            !final(self).is_recording,
            final(self).current_delta is None,
            final(self).lines@ == old(self).lines@,
            final(self).summary_lines@ == old(self).summary_lines@,
            final(self).recording_start == old(self).recording_start,
            final(self).stt_backend@ == old(self).stt_backend@,
    {
        self.is_recording = false;
        self.current_delta = None;
    }

    /// Shows partial text of the turn being spoken.
    pub fn update_delta(&mut self, source: AudioSource, text: &str)
        ensures
            final(self).current_delta matches Some((s, t)) && s == source && t@ == text@,
            final(self).lines@ == old(self).lines@,
            final(self).is_recording == old(self).is_recording,
            final(self).summary_lines@ == old(self).summary_lines@,
            final(self).recording_start == old(self).recording_start,
            final(self).stt_backend@ == old(self).stt_backend@,
    {
        self.current_delta = Some((source, String::from_str(text)));
    }

    /// Adds a finished speech line, unless it is empty, and drops the
    /// partial text.
    pub fn push_final_transcript(&mut self, source: AudioSource, text: &str)
        ensures
            final(self).current_delta is None,
            text@.len() == 0 ==> final(self).lines@ == old(self).lines@,
            text@.len() > 0 ==> final(self).lines@.len() == old(self).lines@.len() + 1
                && final(self).lines@.drop_last() == old(self).lines@
                && final(self).lines@.last().source == source
                && final(self).lines@.last().text@ == text@
                && !final(self).lines@.last().is_translation,
            final(self).is_recording == old(self).is_recording,
            final(self).summary_lines@ == old(self).summary_lines@,
            final(self).recording_start == old(self).recording_start,
            final(self).stt_backend@ == old(self).stt_backend@,
    {
        if !text.is_empty() {
            let ghost before = self.lines@;
            self.lines.push(TranscriptLine { source, text: String::from_str(text), is_translation: false });
            proof {
                assert(self.lines@.drop_last() =~= before);
            }
        }
        self.current_delta = None;
    }

    /// Adds a translation line.
    pub fn push_translation(&mut self, source: AudioSource, text: &str)
        ensures
            final(self).lines@.len() == old(self).lines@.len() + 1,
            final(self).lines@.drop_last() == old(self).lines@,
            final(self).lines@.last().source == source,
            final(self).lines@.last().text@ == text@,
            final(self).lines@.last().is_translation,
            final(self).current_delta == old(self).current_delta,
            final(self).is_recording == old(self).is_recording,
            final(self).summary_lines@ == old(self).summary_lines@,
            final(self).recording_start == old(self).recording_start,
            final(self).stt_backend@ == old(self).stt_backend@,
    {
        let ghost before = self.lines@;
        self.lines.push(TranscriptLine { source, text: String::from_str(text), is_translation: true });
        proof {
            assert(self.lines@.drop_last() =~= before);
        }
    }

    /// Replaces the rolling summary by the lines of `text`.
    pub fn set_summary(&mut self, text: &str)
        ensures
            views_of(final(self).summary_lines@) == text_lines(text@),
            final(self).lines@ == old(self).lines@,
            final(self).current_delta == old(self).current_delta,
            final(self).is_recording == old(self).is_recording,
            final(self).recording_start == old(self).recording_start,
            final(self).stt_backend@ == old(self).stt_backend@,
    {
        self.summary_lines = split_lines(text);
    }

    /// Number of speech lines, translations not counted.
    pub fn transcript_count(&self) -> (n: usize)
        ensures
            n == speech_line_count(self.lines@),
    {
        let mut n: usize = 0;
        let mut i: usize = 0;
        while i < self.lines.len()
            invariant
                i <= self.lines@.len(),
                n <= i,
                n == speech_line_count(self.lines@.take(i as int)),
            decreases self.lines.len() - i,
        {
            proof {
                assert(self.lines@.take(i + 1).drop_last() =~= self.lines@.take(i as int));
            }
            if !self.lines[i].is_translation {
                n = n + 1;
            }
            i = i + 1;
        }
        proof {
            assert(self.lines@.take(i as int) =~= self.lines@);
        }
        n
    }
}

/// Events of the audio pipeline, as the interface consumes them.
pub enum AudioEvent {
    /// Recognised speech, partial or final.
    Transcript { source: AudioSource, text: String, is_final: bool },
    /// The translation of a final line; `source_id` starts with the speaker
    /// label.
    Translation { source_id: String, text: String },
    /// A new rolling summary.
    Summary(String),
    /// A pipeline error.
    Error(String),
    /// Recording ended.
    Stopped { transcript: String, duration_ms: u64, audio_path: Option<String> },
}

/// What the interface must do after an audio event.
pub enum LiveEffect {
    /// Nothing more.
    Nothing,
    /// Hand a final line to the translation pipeline (with its id) and to
    /// the summary pipeline.
    Forward { translation_id: String, text: String, summary_line: String },
    /// Show a status message.
    Status(String),
    /// Store the recorded call.
    SaveCall { transcript: String, duration_ms: u64, audio_path: Option<String> },
}

/// Whether a translation id names the user's own speech.
pub open spec fn names_user(source_id: Seq<char>) -> bool {
    source_id.len() >= 3 && source_id.take(3) == "You"@
}

/// Applies an audio-pipeline event to live mode and says what else to do:
/// a final line goes to translation (as "label-count") and to the summary
/// (as "label: text"); a partial line replaces the partial text; errors
/// become status messages; a stop ends the recording and asks for the call
/// to be stored.
pub fn apply_audio_event(live: &mut LiveState, event: AudioEvent) -> (effect: LiveEffect)
    ensures
        match event {
            AudioEvent::Transcript { source, text, is_final } => if is_final {
                &&& final(live).current_delta is None
                &&& (text@.len() > 0 ==> final(live).lines@ == old(live).lines@.push(final(live).lines@.last()))
                &&& (text@.len() > 0 ==> final(live).lines@.last().text@ == text@ && final(live).lines@.last().source == source
                    && !final(live).lines@.last().is_translation)
                &&& (text@.len() == 0 ==> final(live).lines@ == old(live).lines@)
                &&& same_session(*old(live), *final(live))
                &&& final(live).summary_lines@ == old(live).summary_lines@
                &&& match effect {
                    LiveEffect::Forward { translation_id, text: t, summary_line } => text@.len() > 0
                        && translation_id@ == source_label(source) + "-"@ + decimal(speech_line_count(final(live).lines@))
                        && t@ == text@
                        && summary_line@ == source_label(source) + ": "@ + text@,
                    LiveEffect::Nothing => text@.len() == 0,
                    _ => false,
                }
            } else {
                &&& final(live).current_delta matches Some((s, t)) && s == source && t@ == text@
                &&& final(live).lines@ == old(live).lines@
                &&& same_session(*old(live), *final(live))
                &&& final(live).summary_lines@ == old(live).summary_lines@
                &&& effect is Nothing
            },
            AudioEvent::Translation { source_id, text } => {
                &&& final(live).lines@.len() == old(live).lines@.len() + 1
                &&& final(live).lines@.drop_last() == old(live).lines@
                &&& final(live).lines@.last().text@ == text@
                &&& final(live).lines@.last().is_translation
                &&& final(live).lines@.last().source == if names_user(source_id@) { AudioSource::Mic } else { AudioSource::System }
                &&& same_session(*old(live), *final(live))
                &&& final(live).summary_lines@ == old(live).summary_lines@
                &&& final(live).current_delta == old(live).current_delta
                &&& effect is Nothing
            },
            AudioEvent::Summary(text) => {
                &&& views_of(final(live).summary_lines@) == text_lines(text@)
                &&& final(live).lines@ == old(live).lines@
                &&& same_session(*old(live), *final(live))
                &&& final(live).current_delta == old(live).current_delta
                &&& effect is Nothing
            },
            AudioEvent::Error(e) => {
                &&& final(live).lines@ == old(live).lines@
                &&& same_session(*old(live), *final(live))
                &&& final(live).summary_lines@ == old(live).summary_lines@
                &&& final(live).current_delta == old(live).current_delta
                &&& effect matches LiveEffect::Status(s) && s@ == "Error: "@ + e@
            },
            AudioEvent::Stopped { transcript, duration_ms, audio_path } => {
                &&& !final(live).is_recording
                &&& final(live).current_delta is None
                &&& final(live).lines@ == old(live).lines@
                &&& final(live).summary_lines@ == old(live).summary_lines@
                &&& final(live).recording_start == old(live).recording_start
                &&& final(live).stt_backend@ == old(live).stt_backend@
                &&& effect matches LiveEffect::SaveCall { transcript: t, duration_ms: d, audio_path: p }
                    && t@ == transcript@ && d == duration_ms && p == audio_path
            },
        },
{
    match event {
        AudioEvent::Transcript { source, text, is_final } => {
            if is_final {
                live.push_final_transcript(source, text.as_str());
                if !text.as_str().is_empty() {
                    let count = live.transcript_count();
                    let mut id = String::from_str(source.label());
                    id.append("-");
                    let n = u64_to_string(count as u64);
                    id.append(n.as_str());
                    let mut line = String::from_str(source.label());
                    line.append(": ");
                    line.append(text.as_str());
                    proof {
                        assert(live.lines@ =~= old(live).lines@.push(live.lines@.last()));
                    }
                    LiveEffect::Forward { translation_id: id, text, summary_line: line }
                } else {
                    LiveEffect::Nothing
                }
            } else {
                live.update_delta(source, text.as_str());
                LiveEffect::Nothing
            }
        },
        AudioEvent::Translation { source_id, text } => {
            let c = chars_of(source_id.as_str());
            let mine = c.len() >= 3 && c[0] == 'Y' && c[1] == 'o' && c[2] == 'u';
            proof {
                reveal_strlit("You");
                if c@.len() >= 3 {
                    if mine {
                        assert(c@.take(3) =~= "You"@);
                    } else {
                        if c@.take(3) == "You"@ {
                            assert(c@.take(3)[0] == 'Y');
                            assert(c@.take(3)[1] == 'o');
                            assert(c@.take(3)[2] == 'u');
                        }
                    }
                }
            }
            let source = if mine { AudioSource::Mic } else { AudioSource::System };
            live.push_translation(source, text.as_str());
            LiveEffect::Nothing
        },
        AudioEvent::Summary(text) => {
            live.set_summary(text.as_str());
            LiveEffect::Nothing
        },
        AudioEvent::Error(e) => {
            let mut s = String::from_str("Error: ");
            s.append(e.as_str());
            LiveEffect::Status(s)
        },
        AudioEvent::Stopped { transcript, duration_ms, audio_path } => {
            live.stop_recording();
            LiveEffect::SaveCall { transcript, duration_ms, audio_path }
        },
    }
}

/// What the capture pipeline does with a recognition event: the event it
/// reports to the interface. A final, non-empty line is also added to the
/// call's transcript as "label: text" and a line feed.
pub fn pipeline_transcript_event(full: &mut String, source: AudioSource, event: TranscriptEvent) -> (r: AudioEvent)
    ensures
        match event {
            TranscriptEvent::Delta { item_id, text } => {
                &&& final(full)@ == old(full)@
                &&& r matches AudioEvent::Transcript { source: s, text: t, is_final } && s == source && t@ == text@ && !is_final
            },
            TranscriptEvent::Final { item_id, text } => {
                &&& (if text@.len() > 0 {
                    final(full)@ == old(full)@ + source_label(source) + ": "@ + text@ + "\n"@
                } else {
                    final(full)@ == old(full)@
                })
                &&& r matches AudioEvent::Transcript { source: s, text: t, is_final } && s == source && t@ == text@ && is_final
            },
            TranscriptEvent::Error(e) => {
                &&& final(full)@ == old(full)@
                &&& r matches AudioEvent::Error(m) && m@ == (match source {
                    AudioSource::Mic => "STT: "@,
                    AudioSource::System => "System STT: "@,
                }) + e@
            },
        },
{
    match event {
        TranscriptEvent::Delta { item_id: _, text } => AudioEvent::Transcript { source, text, is_final: false },
        TranscriptEvent::Final { item_id: _, text } => {
            if !text.as_str().is_empty() {
                full.append(source.label());
                full.append(": ");
                full.append(text.as_str());
                full.append("\n");
            }
            AudioEvent::Transcript { source, text, is_final: true }
        },
        TranscriptEvent::Error(e) => {
            let mut m = match source {
                AudioSource::Mic => String::from_str("STT: "),
                AudioSource::System => String::from_str("System STT: "),
            };
            m.append(e.as_str());
            AudioEvent::Error(m)
        },
    }
}

/// Whether the capture pipeline stops when a recognition stream closes: the
/// microphone's closing ends the recording, the system's does not.
pub fn stops_on_close(source: AudioSource) -> (b: bool)
    ensures
        b == (source == AudioSource::Mic),
{
    match source {
        AudioSource::Mic => true,
        AudioSource::System => false,
    }
}

} // verus!
