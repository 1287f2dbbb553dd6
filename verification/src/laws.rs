//! Properties that relate several operations of the library.
use vstd::prelude::*;
use crate::call::{hex_digit, hex_lower, CallView};
use crate::text::lowercase;
use crate::history::{filter_by_tags, has_active_tag, holds};
use crate::live::{speech_line_count, TranscriptLine};
use crate::realtime::pcm_bytes;
use crate::stats::{analyzed, started_since, total_duration};
use crate::navigation::{key_route, Key, KeyRoute, Mode};
use crate::voice::{mode_from_name, mode_from_profile, MicMode};
use crate::text::contains_seq;

verus! {

/// Toggling the same tag twice leaves the set of active tags as it was:
/// whatever `toggle_tag` changes on the first call it changes back on the
/// second.
pub proof fn law_toggle_twice(before: Seq<String>, middle: Seq<String>, after: Seq<String>, key: Seq<char>)
    requires
        forall|s: Seq<char>| holds(middle, s) <==> (if s == key { !holds(before, s) } else { holds(before, s) }),
        forall|s: Seq<char>| holds(after, s) <==> (if s == key { !holds(middle, s) } else { holds(middle, s) }),
    ensures
        forall|s: Seq<char>| holds(after, s) <==> holds(before, s),
{
}

/// The shown calls depend only on which tags are active: two lists of
/// active tags that hold the same strings let the same calls through.
pub proof fn law_filter_follows_tag_set(all: Seq<CallView>, a: Seq<String>, b: Seq<String>)
    requires
        forall|s: Seq<char>| holds(a, s) <==> holds(b, s),
    ensures
        filter_by_tags(all, a) == filter_by_tags(all, b),
{
    if a.len() > 0 {
        assert(holds(a, a[0]@));
    }
    if b.len() > 0 {
        assert(holds(b, b[0]@));
    }
    assert forall|c: CallView| has_active_tag(c, a) <==> has_active_tag(c, b) by {
        if has_active_tag(c, a) {
            let (i, j) = choose|i: int, j: int|
                0 <= i < c.tags.len() && 0 <= j < a.len() && #[trigger] a[j]@ == lowercase(#[trigger] c.tags[i]@);
            assert(holds(a, lowercase(c.tags[i]@)));
            let k = choose|k: int| 0 <= k < b.len() && b[k]@ == lowercase(c.tags[i]@);
            assert(b[k]@ == lowercase(c.tags[i]@));
        }
        if has_active_tag(c, b) {
            let (i, j) = choose|i: int, j: int|
                0 <= i < c.tags.len() && 0 <= j < b.len() && #[trigger] b[j]@ == lowercase(#[trigger] c.tags[i]@);
            assert(holds(b, lowercase(c.tags[i]@)));
            let k = choose|k: int| 0 <= k < a.len() && a[k]@ == lowercase(c.tags[i]@);
            assert(a[k]@ == lowercase(c.tags[i]@));
        }
    }
    assert((|c: CallView| has_active_tag(c, a)) =~= (|c: CallView| has_active_tag(c, b)));
}

/// Toggling the same tag twice shows the same calls as before: the second
/// toggle undoes the first.
pub proof fn law_toggle_twice_restores_calls(
    all: Seq<CallView>,
    before: Seq<String>,
    middle: Seq<String>,
    after: Seq<String>,
    key: Seq<char>,
)
    requires
        forall|s: Seq<char>| holds(middle, s) <==> (if s == key { !holds(before, s) } else { holds(before, s) }),
        forall|s: Seq<char>| holds(after, s) <==> (if s == key { !holds(middle, s) } else { holds(middle, s) }),
    ensures
        filter_by_tags(all, after) == filter_by_tags(all, before),
{
    law_toggle_twice(before, middle, after, key);
    law_filter_follows_tag_set(all, after, before);
}

/// Fewer calls started since a later moment than since an earlier one: the
/// week's count never exceeds the month's.
pub proof fn law_recent_counts_nest(calls: Seq<CallView>, later: int, earlier: int)
    requires
        earlier <= later,
    ensures
        started_since(calls, later) <= started_since(calls, earlier),
    decreases calls.len(),
{
    if calls.len() > 0 {
        law_recent_counts_nest(calls.drop_last(), later, earlier);
    }
}

/// Hexadecimal text has two lowercase hexadecimal digits per byte: an
/// action id, made from four digest bytes, is eight such digits.
pub proof fn law_hex_shape(bytes: Seq<u8>)
    ensures
        hex_lower(bytes).len() == 2 * bytes.len(),
        forall|i: int| 0 <= i < hex_lower(bytes).len() ==> {
            let c = #[trigger] hex_lower(bytes)[i];
            ('0' <= c && c <= '9') || ('a' <= c && c <= 'f')
        },
    decreases bytes.len(),
{
    if bytes.len() > 0 {
        let p = bytes.drop_last();
        law_hex_shape(p);
        let hi = (bytes.last() / 16) as nat;
        let lo = (bytes.last() % 16) as nat;
        lemma_hex_digit(hi);
        lemma_hex_digit(lo);
        let h = hex_lower(bytes);
        assert forall|i: int| 0 <= i < h.len() implies {
            let c = #[trigger] h[i];
            ('0' <= c && c <= '9') || ('a' <= c && c <= 'f')
        } by {
            if i < hex_lower(p).len() {
                assert(h[i] == hex_lower(p)[i]);
            }
        }
    }
}

/// A digit below sixteen is a decimal digit or a lowercase letter up to f.
proof fn lemma_hex_digit(n: nat)
    requires
        n < 16,
    ensures
        ('0' <= hex_digit(n) && hex_digit(n) <= '9') || ('a' <= hex_digit(n) && hex_digit(n) <= 'f'),
{
    if n < 10 {
        assert(((n + 48) as u32) as char == hex_digit(n));
        assert((('0' as u32) + n) as u32 == (n + 48) as u32);
    } else {
        assert(((n - 10 + 97) as u32) as char == hex_digit(n));
    }
}

/// Translations do not count as transcript lines: adding one leaves the
/// count unchanged, adding a speech line raises it by one.
pub proof fn law_translation_not_counted(lines: Seq<TranscriptLine>, line: TranscriptLine)
    ensures
        speech_line_count(lines.push(line)) == speech_line_count(lines) + if line.is_translation { 0nat } else { 1nat },
{
    assert(lines.push(line).drop_last() =~= lines);
}

/// Each sample becomes two bytes of PCM.
pub proof fn law_pcm_length(samples: Seq<i16>)
    ensures
        pcm_bytes(samples).len() == 2 * samples.len(),
    decreases samples.len(),
{
    if samples.len() > 0 {
        law_pcm_length(samples.drop_last());
    }
}

/// Esc when nothing is being recorded and help is hidden quits from every
/// mode but the history, which it leaves; while recording it does nothing
/// outside the history.
pub proof fn law_esc_when_idle(m: Mode, recording: bool)
    ensures
        !(m is History) && !recording ==> key_route(m, false, recording, Key::Esc) == KeyRoute::Quit,
        !(m is History) && recording ==> key_route(m, false, recording, Key::Esc) == KeyRoute::Ignore,
        m is History ==> key_route(m, false, recording, Key::Esc) == KeyRoute::LeaveHistory,
{
}

/// Ctrl-C quits from every mode, whatever else holds; with help shown any
/// other key only closes the help.
pub proof fn law_ctrl_c_and_help(m: Mode, recording: bool, key: Key)
    ensures
        key_route(m, true, recording, Key::CtrlC) == KeyRoute::StopAndQuit,
        key_route(m, false, recording, Key::CtrlC) == KeyRoute::StopAndQuit,
        key != Key::CtrlC ==> key_route(m, true, recording, key) == KeyRoute::DismissHelp,
{
}

/// The total length of calls is additive: one more call adds exactly its
/// own length, and the total of two lists is the sum of their totals.
pub proof fn law_total_duration_adds(calls: Seq<CallView>, more: Seq<CallView>, c: CallView)
    ensures
        total_duration(Seq::empty()) == 0,
        total_duration(calls.push(c)) == total_duration(calls) + c.duration_ms,
        total_duration(calls + more) == total_duration(calls) + total_duration(more),
    decreases more.len(),
{
    assert(calls.push(c).drop_last() =~= calls);
    if more.len() == 0 {
        assert(calls + more =~= calls);
    } else {
        law_total_duration_adds(calls, more.drop_last(), c);
        assert((calls + more).drop_last() =~= calls + more.drop_last());
        assert((calls + more).last() == more.last());
    }
}

/// The total of a list counts every call's own length: it is the sum of
/// the lengths of the calls at each position.
pub proof fn law_total_duration_is_sum(calls: Seq<CallView>)
    ensures
        calls.len() == 1 ==> total_duration(calls) == calls[0].duration_ms,
        calls.len() == 2 ==> total_duration(calls) == calls[0].duration_ms + calls[1].duration_ms,
        forall|i: int| 0 <= i < calls.len() ==> total_duration(calls) >= #[trigger] calls[i].duration_ms,
    decreases calls.len(),
{
    if calls.len() > 0 {
        let p = calls.drop_last();
        law_total_duration_is_sum(p);
        assert forall|i: int| 0 <= i < calls.len() implies total_duration(calls) >= #[trigger] calls[i].duration_ms by {
            if i < p.len() {
                assert(p[i] == calls[i]);
            }
        }
        if calls.len() == 2 {
            assert(p.len() == 1 && p[0] == calls[0]);
        }
        if calls.len() == 1 {
            assert(p.len() == 0);
        }
    }
}

/// The system profiler's report: "Voice Isolation" anywhere means voice
/// isolation; otherwise "Wide Spectrum" means wide spectrum; otherwise any
/// "Input" or "Microphone" means the standard mode; a report with none of
/// these names no mode.
pub proof fn law_profiler_report(report: Seq<char>)
    ensures
        contains_seq(report, "Voice Isolation"@) ==> mode_from_profile(report) == Some(MicMode::VoiceIsolation),
        !contains_seq(report, "Voice Isolation"@) && contains_seq(report, "Wide Spectrum"@) ==> mode_from_profile(
            report,
        ) == Some(MicMode::WideSpectrum),
        !contains_seq(report, "Voice Isolation"@) && !contains_seq(report, "Wide Spectrum"@) && contains_seq(
            report,
            "Input"@,
        ) ==> mode_from_profile(report) == Some(MicMode::Standard),
        !contains_seq(report, "Voice Isolation"@) && !contains_seq(report, "Wide Spectrum"@) && contains_seq(
            report,
            "Microphone"@,
        ) ==> mode_from_profile(report) == Some(MicMode::Standard),
        !contains_seq(report, "Voice Isolation"@) && !contains_seq(report, "Wide Spectrum"@) && !contains_seq(
            report,
            "Input"@,
        ) && !contains_seq(report, "Microphone"@) ==> mode_from_profile(report) is None,
{
}

/// `q` quits live mode when idle and analysis mode always; in the agent it
/// is typed text and in the history it is the history's own key; `?` opens
/// help in every mode.
pub proof fn law_q_and_help_keys(m: Mode, recording: bool)
    ensures
        key_route(Mode::Live, false, false, Key::Char('q')) == KeyRoute::Quit,
        key_route(Mode::Live, false, true, Key::Char('q')) == KeyRoute::Live,
        (m matches Mode::Analysis { .. }) ==> key_route(m, false, recording, Key::Char('q')) == KeyRoute::Quit,
        key_route(Mode::Agent, false, recording, Key::Char('q')) == KeyRoute::Agent,
        (m matches Mode::History { .. }) ==> key_route(m, false, recording, Key::Char('q')) == KeyRoute::History,
        key_route(m, false, recording, Key::Char('?')) == KeyRoute::ShowHelp,
{
}

/// The count of analysed calls rises by one for each call with an analysis
/// and stays for each call without one.
pub proof fn law_analyzed_counts(themes: Seq<Option<Vec<String>>>, t: Option<Vec<String>>)
    ensures
        analyzed(Seq::empty()) == 0,
        analyzed(themes.push(t)) == analyzed(themes) + if t is Some { 1nat } else { 0nat },
        analyzed(themes) <= themes.len(),
    decreases themes.len(),
{
    assert(themes.push(t).drop_last() =~= themes);
    if themes.len() > 0 {
        law_analyzed_counts(themes.drop_last(), t);
    }
}

/// Counting recent calls: one more call counts exactly when it started at
/// or after the cutoff.
pub proof fn law_started_since_counts(calls: Seq<CallView>, c: CallView, cutoff: int)
    ensures
        started_since(calls.push(c), cutoff) == started_since(calls, cutoff) + if c.created_at_ms >= cutoff {
            1nat
        } else {
            0nat
        },
{
    assert(calls.push(c).drop_last() =~= calls);
}

/// The names a helper may answer with, lowercased: "standard"; the three
/// spellings of voice isolation and of wide spectrum; "unknown".
pub proof fn law_helper_names()
    ensures
        mode_from_name("standard"@) == Some(MicMode::Standard),
        mode_from_name("voice_isolation"@) == Some(MicMode::VoiceIsolation),
        mode_from_name("voice-isolation"@) == Some(MicMode::VoiceIsolation),
        mode_from_name("voiceisolation"@) == Some(MicMode::VoiceIsolation),
        mode_from_name("wide_spectrum"@) == Some(MicMode::WideSpectrum),
        mode_from_name("wide-spectrum"@) == Some(MicMode::WideSpectrum),
        mode_from_name("widespectrum"@) == Some(MicMode::WideSpectrum),
        mode_from_name("unknown"@) == Some(MicMode::Unknown),
        mode_from_name(Seq::empty()) is None,
{
    reveal_strlit("standard");
    reveal_strlit("voice_isolation");
    reveal_strlit("voice-isolation");
    reveal_strlit("voiceisolation");
    reveal_strlit("wide_spectrum");
    reveal_strlit("wide-spectrum");
    reveal_strlit("widespectrum");
    reveal_strlit("unknown");
    assert("voice_isolation"@.len() != "standard"@.len());
    assert("voice-isolation"@.len() != "standard"@.len());
    assert("voice-isolation"@[5] != "voice_isolation"@[5]);
    assert("voiceisolation"@.len() != "standard"@.len());
    assert("voiceisolation"@.len() != "voice_isolation"@.len());
    assert("voiceisolation"@.len() != "voice-isolation"@.len());
    assert("wide_spectrum"@.len() != "standard"@.len());
    assert("wide_spectrum"@.len() != "voice_isolation"@.len());
    assert("wide_spectrum"@.len() != "voice-isolation"@.len());
    assert("wide_spectrum"@.len() != "voiceisolation"@.len());
    assert("wide-spectrum"@.len() != "standard"@.len());
    assert("wide-spectrum"@.len() != "voice_isolation"@.len());
    assert("wide-spectrum"@.len() != "voice-isolation"@.len());
    assert("wide-spectrum"@.len() != "voiceisolation"@.len());
    assert("wide-spectrum"@[4] != "wide_spectrum"@[4]);
    assert("widespectrum"@.len() != "standard"@.len());
    assert("widespectrum"@.len() != "voice_isolation"@.len());
    assert("widespectrum"@.len() != "voice-isolation"@.len());
    assert("widespectrum"@.len() != "voiceisolation"@.len());
    assert("widespectrum"@.len() != "wide_spectrum"@.len());
    assert("widespectrum"@.len() != "wide-spectrum"@.len());
    assert("unknown"@.len() != "standard"@.len());
    assert("unknown"@.len() != "voice_isolation"@.len());
    assert("unknown"@.len() != "voice-isolation"@.len());
    assert("unknown"@.len() != "voiceisolation"@.len());
    assert("unknown"@.len() != "wide_spectrum"@.len());
    assert("unknown"@.len() != "wide-spectrum"@.len());
    assert("unknown"@.len() != "widespectrum"@.len());
}

} // verus!
