//! Voice-activity segmentation: turns a stream of audio chunks, each marked
//! as speech or silence, into speech segments.
//!
//! How a chunk is judged (a neural model or an energy threshold) is decided
//! outside; this module decides when speech starts and ends, what a segment
//! holds, and which segments are too short to keep.
use vstd::prelude::*;

verus! {

/// The chunk counts that drive segmentation.
#[derive(Clone, Copy, Debug, PartialEq, Eq, Structural)]
pub struct VadTiming {
    /// Silent chunks in a row that end a segment.
    pub silence_chunks: usize,
    /// Speech chunks a segment needs to be kept.
    pub min_speech_chunks: usize,
    /// Silent chunks kept before an onset, so that it is not clipped.
    pub pre_speech_chunks: usize,
}

impl VadTiming {
    /// The general-purpose preset, as a value.
    pub open spec fn standard_spec() -> VadTiming {
        VadTiming { silence_chunks: 24, min_speech_chunks: 6, pre_speech_chunks: 3 }
    }

    /// The clean-voice preset, as a value.
    pub open spec fn voice_isolated_spec() -> VadTiming {
        VadTiming { silence_chunks: 20, min_speech_chunks: 4, pre_speech_chunks: 3 }
    }

    /// The general-purpose preset: 24 silent chunks end speech, 6 speech
    /// chunks make a segment, 3 chunks of pre-roll.
    pub fn standard() -> (t: VadTiming)
        ensures
            t.silence_chunks == 24,
            t.min_speech_chunks == 6,
            t.pre_speech_chunks == 3,
    {
        VadTiming { silence_chunks: 24, min_speech_chunks: 6, pre_speech_chunks: 3 }
    }

    /// The preset for clean, isolated voice.
    pub fn voice_isolated() -> (t: VadTiming)
        ensures
            t.silence_chunks == 20,
            t.min_speech_chunks == 4,
            t.pre_speech_chunks == 3,
    {
        VadTiming { silence_chunks: 20, min_speech_chunks: 4, pre_speech_chunks: 3 }
    }

    /// The preset for noisy rooms.
    pub fn noisy() -> (t: VadTiming)
        ensures
            t.silence_chunks == 30,
            t.min_speech_chunks == 8,
            t.pre_speech_chunks == 5,
    {
        VadTiming { silence_chunks: 30, min_speech_chunks: 8, pre_speech_chunks: 5 }
    }
}

/// What the segmenter reports.
pub enum VadEvent<T> {
    /// Speech has started.
    SpeechStart,
    /// A chunk of speech (kept for callers that stream; never emitted here).
    SpeechChunk(T),
    /// Speech has ended; the segment's chunks, pre-roll first.
    SpeechEnd(Vec<T>),
}

/// The abstract state of the segmenter.
pub struct VadView<T> {
    /// Silent chunks kept while idle.
    pub pre: Seq<T>,
    /// Chunks of the segment being collected.
    pub speech: Seq<T>,
    /// Whether a segment is open.
    pub speaking: bool,
    /// Silent chunks in a row since the last speech chunk.
    pub silence: int,
    /// Speech chunks in the open segment.
    pub speech_chunks: int,
}

/// A report in the abstract model.
pub enum VadSignal<T> {
    Start,
    End(Seq<T>),
}

/// The abstract report of an event.
pub open spec fn event_signal<T>(e: VadEvent<T>) -> Option<VadSignal<T>> {
    match e {
        VadEvent::SpeechStart => Some(VadSignal::Start),
        VadEvent::SpeechChunk(_) => None,
        VadEvent::SpeechEnd(v) => Some(VadSignal::End(v@)),
    }
}

/// Whether the segmenter can take the chunk: an idle segmenter that keeps no
/// pre-roll cannot drop its oldest pre-roll chunk.
pub open spec fn step_defined<T>(t: VadTiming, s: VadView<T>, is_speech: bool) -> bool {
    is_speech || s.speaking || s.pre.len() > 0 || t.pre_speech_chunks > 0
}

/// One chunk through the segmenter: the next state and what it reports.
pub open spec fn vad_step<T>(t: VadTiming, s: VadView<T>, chunk: T, is_speech: bool) -> (VadView<T>, Option<VadSignal<T>>) {
    if is_speech {
        if !s.speaking {
            (
                VadView { pre: Seq::empty(), speech: s.pre.push(chunk), speaking: true, silence: 0, speech_chunks: 1 },
                Some(VadSignal::Start),
            )
        } else {
            (
                VadView { pre: s.pre, speech: s.speech.push(chunk), speaking: true, silence: 0, speech_chunks: s.speech_chunks + 1 },
                None,
            )
        }
    } else if s.speaking {
        if s.silence + 1 >= t.silence_chunks {
            (
                VadView { pre: s.pre, speech: Seq::empty(), speaking: false, silence: 0, speech_chunks: 0 },
                if s.speech_chunks >= t.min_speech_chunks {
                    Some(VadSignal::End(s.speech.push(chunk)))
                } else {
                    None
                },
            )
        } else {
            (
                VadView { pre: s.pre, speech: s.speech.push(chunk), speaking: true, silence: s.silence + 1, speech_chunks: s.speech_chunks },
                None,
            )
        }
    } else {
        let kept = if s.pre.len() >= t.pre_speech_chunks { s.pre.drop_first() } else { s.pre };
        (VadView { pre: kept.push(chunk), speech: s.speech, speaking: false, silence: s.silence, speech_chunks: s.speech_chunks }, None)
    }
}

/// The well-formed states: the pre-roll never exceeds its limit and is empty
/// during speech; an idle segmenter holds no speech; an open segment holds at
/// least its speech chunks.
pub open spec fn vad_wf<T>(t: VadTiming, s: VadView<T>) -> bool {
    &&& s.pre.len() <= t.pre_speech_chunks
    &&& s.silence >= 0
    &&& s.speaking ==> s.pre.len() == 0 && 1 <= s.speech_chunks <= s.speech.len()
    &&& !s.speaking ==> s.speech.len() == 0 && s.speech_chunks == 0
}

/// The chunks of a run of inputs.
pub open spec fn input_chunks<T>(xs: Seq<(T, bool)>) -> Seq<T> {
    xs.map_values(|x: (T, bool)| x.0)
}

/// The state after a run of inputs.
pub open spec fn vad_run<T>(t: VadTiming, s: VadView<T>, xs: Seq<(T, bool)>) -> VadView<T>
    decreases xs.len(),
{
    if xs.len() == 0 {
        s
    } else {
        vad_step(t, vad_run(t, s, xs.drop_last()), xs.last().0, xs.last().1).0
    }
}

/// The reports of a run of inputs, in order.
pub open spec fn vad_signals<T>(t: VadTiming, s: VadView<T>, xs: Seq<(T, bool)>) -> Seq<VadSignal<T>>
    decreases xs.len(),
{
    if xs.len() == 0 {
        Seq::empty()
    } else {
        let before = vad_signals(t, s, xs.drop_last());
        match vad_step(t, vad_run(t, s, xs.drop_last()), xs.last().0, xs.last().1).1 {
            Some(sig) => before.push(sig),
            None => before,
        }
    }
}

/// Whether every input of a run can be taken.
pub open spec fn run_defined<T>(t: VadTiming, s: VadView<T>, xs: Seq<(T, bool)>) -> bool {
    forall|k: int| 0 <= k < xs.len() ==> step_defined(t, #[trigger] vad_run(t, s, xs.take(k)), xs[k].1)
}

/// Every step keeps the state well formed; in particular the pre-roll never
/// holds more than `pre_speech_chunks` chunks.
pub proof fn law_step_keeps_wf<T>(t: VadTiming, s: VadView<T>, chunk: T, is_speech: bool)
    requires
        vad_wf(t, s),
        step_defined(t, s, is_speech),
    ensures
        vad_wf(t, vad_step(t, s, chunk, is_speech).0),
{
}

/// A segment is reported only when it holds at least `min_speech_chunks`
/// speech chunks, and it is the collected speech followed by the closing
/// chunk.
pub proof fn law_segment_long_enough<T>(t: VadTiming, s: VadView<T>, chunk: T, is_speech: bool, seg: Seq<T>)
    requires
        vad_step(t, s, chunk, is_speech).1 == Some(VadSignal::End(seg)),
    ensures
        s.speaking,
        !is_speech,
        s.speech_chunks >= t.min_speech_chunks,
        seg == s.speech.push(chunk),
{
}

/// From an onset on, the open segment is the pre-roll held at the onset
/// followed by every chunk fed since, speech and silence alike.
pub proof fn law_segment_collects_all<T>(t: VadTiming, s: VadView<T>, xs: Seq<(T, bool)>)
    requires
        vad_wf(t, s),
        !s.speaking,
        xs.len() > 0,
        xs[0].1,
        forall|k: int| 1 <= k <= xs.len() ==> (#[trigger] vad_run(t, s, xs.take(k))).speaking,
    ensures
        vad_run(t, s, xs).speech == s.pre + input_chunks(xs),
    decreases xs.len(),
{
    assert(xs.take(xs.len() as int) =~= xs);
    if xs.len() == 1 {
        assert(xs.drop_last() =~= Seq::<(T, bool)>::empty());
        assert(input_chunks(xs) =~= seq![xs[0].0]);
        assert(s.pre + input_chunks(xs) =~= s.pre.push(xs[0].0));
        assert(vad_run(t, s, xs.drop_last()) == s);
        assert(xs.last() == xs[0]);
        assert(vad_run(t, s, xs).speech == s.pre.push(xs[0].0));
    } else {
        let ys = xs.drop_last();
        assert forall|k: int| 1 <= k <= ys.len() implies (#[trigger] vad_run(t, s, ys.take(k))).speaking by {
            assert(ys.take(k) =~= xs.take(k));
        }
        law_segment_collects_all(t, s, ys);
        assert(ys.take(ys.len() as int) =~= ys);
        assert(vad_run(t, s, ys).speaking);
        assert(vad_run(t, s, xs.take(xs.len() as int)).speaking);
        assert(vad_run(t, s, xs).speaking);
        assert(input_chunks(xs) =~= input_chunks(ys).push(xs.last().0));
        assert(s.pre + input_chunks(xs) =~= (s.pre + input_chunks(ys)).push(xs.last().0));
        assert(vad_run(t, s, xs).speech == vad_run(t, s, ys).speech.push(xs.last().0));
    }
}

/// Feeding a run in two parts is feeding it at once: the state after both
/// parts is the state after the whole run, and the reports of the parts,
/// one after the other, are the reports of the whole run.
pub proof fn law_run_split<T>(t: VadTiming, s: VadView<T>, xs: Seq<(T, bool)>, ys: Seq<(T, bool)>)
    ensures
        vad_run(t, s, xs + ys) == vad_run(t, vad_run(t, s, xs), ys),
        vad_signals(t, s, xs + ys) == vad_signals(t, s, xs) + vad_signals(t, vad_run(t, s, xs), ys),
    decreases ys.len(),
{
    if ys.len() == 0 {
        assert(xs + ys =~= xs);
        assert(vad_signals(t, s, xs) + vad_signals(t, vad_run(t, s, xs), ys) =~= vad_signals(t, s, xs));
    } else {
        law_run_split(t, s, xs, ys.drop_last());
        assert((xs + ys).drop_last() =~= xs + ys.drop_last());
        assert((xs + ys).last() == ys.last());
        let before = vad_signals(t, s, xs) + vad_signals(t, vad_run(t, s, xs), ys.drop_last());
        match vad_step(t, vad_run(t, vad_run(t, s, xs), ys.drop_last()), ys.last().0, ys.last().1).1 {
            Some(sig) => {
                assert(before.push(sig) =~= vad_signals(t, s, xs) + vad_signals(t, vad_run(t, s, xs), ys.drop_last()).push(sig));
            },
            None => {},
        }
    }
}

/// The segmenter.
pub struct VadProcessor<T> {
    timing: VadTiming,
    pre_buffer: Vec<T>,
    speech_buffer: Vec<T>,
    is_speaking: bool,
    silence_count: usize,
    speech_chunks: usize,
}

impl<T> VadProcessor<T> {
    /// The abstract state.
    pub closed spec fn view(&self) -> VadView<T> {
        VadView {
            pre: self.pre_buffer@,
            speech: self.speech_buffer@,
            speaking: self.is_speaking,
            silence: self.silence_count as int,
            speech_chunks: self.speech_chunks as int,
        }
    }

    /// The timing the segmenter was made with.
    pub closed spec fn timing_of(&self) -> VadTiming {
        self.timing
    }

    /// Whether the state is well formed.
    pub open spec fn wf(&self) -> bool {
        vad_wf(self.timing_of(), self.view())
    }

    /// Every segmenter is well formed.
    #[verifier::type_invariant]
    spec fn well_formed(&self) -> bool {
        vad_wf(self.timing, self.view())
    }

    /// An idle segmenter with nothing buffered.
    pub fn new(timing: VadTiming) -> (p: Self)
        ensures
            p.wf(),
            p.timing_of() == timing,
            p.view().pre.len() == 0,
            p.view().speech.len() == 0,
            !p.view().speaking,
            p.view().silence == 0,
            p.view().speech_chunks == 0,
    {
        VadProcessor {
            timing,
            pre_buffer: Vec::new(),
            speech_buffer: Vec::new(),
            is_speaking: false,
            silence_count: 0,
            speech_chunks: 0,
        }
    }

    /// Takes one chunk, judged speech or silence, and reports at most one
    /// event: `SpeechStart` at an onset, `SpeechEnd` with the segment when
    /// enough silence follows enough speech.
    pub fn step(&mut self, chunk: T, is_speech: bool) -> (ev: Option<VadEvent<T>>)
        requires
            step_defined(old(self).timing_of(), old(self).view(), is_speech),
            old(self).view().speech_chunks < usize::MAX,
            old(self).view().silence < usize::MAX,
        ensures
            final(self).wf(),
            final(self).timing_of() == old(self).timing_of(),
            final(self).view() == vad_step(old(self).timing_of(), old(self).view(), chunk, is_speech).0,
            match ev {
                Some(e) => event_signal(e) == vad_step(old(self).timing_of(), old(self).view(), chunk, is_speech).1
                    && event_signal(e) is Some,
                None => vad_step(old(self).timing_of(), old(self).view(), chunk, is_speech).1 is None,
            },
    {
        proof {
            use_type_invariant(&*self);
        }
        let timing = self.timing;
        let mut taken = VadProcessor::new(timing);
        std::mem::swap(&mut taken, self);
        let VadProcessor {
            timing: _,
            pre_buffer: mut pre,
            speech_buffer: mut speech,
            is_speaking: speaking,
            silence_count: silence,
            speech_chunks: chunks,
        } = taken;
        let (next, ev) = if is_speech {
            if !speaking {
                let mut seg = pre;
                seg.push(chunk);
                (VadProcessor {
                    timing,
                    pre_buffer: Vec::new(),
                    speech_buffer: seg,
                    is_speaking: true,
                    silence_count: 0,
                    speech_chunks: 1,
                }, Some(VadEvent::SpeechStart))
            } else {
                speech.push(chunk);
                (VadProcessor {
                    timing,
                    pre_buffer: pre,
                    speech_buffer: speech,
                    is_speaking: true,
                    silence_count: 0,
                    speech_chunks: chunks + 1,
                }, None)
            }
        } else if speaking {
            speech.push(chunk);
            if silence + 1 >= timing.silence_chunks {
                let keep = chunks >= timing.min_speech_chunks;
                (VadProcessor {
                    timing,
                    pre_buffer: pre,
                    speech_buffer: Vec::new(),
                    is_speaking: false,
                    silence_count: 0,
                    speech_chunks: 0,
                }, if keep {
                    Some(VadEvent::SpeechEnd(speech))
                } else {
                    None
                })
            } else {
                (VadProcessor {
                    timing,
                    pre_buffer: pre,
                    speech_buffer: speech,
                    is_speaking: true,
                    silence_count: silence + 1,
                    speech_chunks: chunks,
                }, None)
            }
        } else {
            if pre.len() >= timing.pre_speech_chunks {
                pre.remove(0);
            }
            pre.push(chunk);
            (VadProcessor {
                timing,
                pre_buffer: pre,
                speech_buffer: speech,
                is_speaking: false,
                silence_count: silence,
                speech_chunks: chunks,
            }, None)
        };
        *self = next;
        ev
    }

    /// Takes a run of chunks, each judged speech or silence, and reports the
    /// events of every step in order.
    pub fn feed(&mut self, inputs: Vec<(T, bool)>) -> (events: Vec<VadEvent<T>>)
        requires
            run_defined(old(self).timing_of(), old(self).view(), inputs@),
            old(self).view().speech_chunks + inputs@.len() < usize::MAX,
            old(self).view().silence + inputs@.len() < usize::MAX,
        ensures
            final(self).wf(),
            final(self).timing_of() == old(self).timing_of(),
            final(self).view() == vad_run(old(self).timing_of(), old(self).view(), inputs@),
            events@.map_values(|e: VadEvent<T>| event_signal(e).unwrap())
                == vad_signals(old(self).timing_of(), old(self).view(), inputs@),
    {
        proof {
            use_type_invariant(&*self);
        }
        let ghost t = self.timing_of();
        let ghost s0 = self.view();
        let ghost all = inputs@;
        let mut rest = inputs;
        let mut events: Vec<VadEvent<T>> = Vec::new();
        let mut i: usize = 0;
        proof {
            assert(all.take(0) =~= Seq::<(T, bool)>::empty());
            assert(events@.map_values(|e: VadEvent<T>| event_signal(e).unwrap()) =~= Seq::<VadSignal<T>>::empty());
        }
        while rest.len() > 0
            invariant
                self.wf(),
                self.timing_of() == t,
                i + rest@.len() == all.len(),
                rest@ == all.skip(i as int),
                self.view() == vad_run(t, s0, all.take(i as int)),
                events@.map_values(|e: VadEvent<T>| event_signal(e).unwrap()) == vad_signals(t, s0, all.take(i as int)),
                forall|j: int| 0 <= j < events@.len() ==> event_signal(#[trigger] events@[j]) is Some,
                run_defined(t, s0, all),
                vad_wf(t, s0),
                self.view().speech_chunks <= s0.speech_chunks + i,
                self.view().silence <= s0.silence + i,
                s0.speech_chunks + all.len() < usize::MAX,
                s0.silence + all.len() < usize::MAX,
            decreases rest.len(),
        {
            proof {
                assert(i < all.len());
            }
            let (chunk, is_speech) = rest.remove(0);
            proof {
                assert(all[i as int] == (chunk, is_speech));
                assert(all.take(i + 1).drop_last() =~= all.take(i as int));
                assert(all.take(i + 1).last() == all[i as int]);
                assert(step_defined(t, vad_run(t, s0, all.take(i as int)), all[i as int].1));
            }
            let ev = self.step(chunk, is_speech);
            let ghost before = events@;
            match ev {
                Some(e) => {
                    events.push(e);
                    proof {
                        assert(events@.map_values(|e: VadEvent<T>| event_signal(e).unwrap())
                            =~= before.map_values(|e: VadEvent<T>| event_signal(e).unwrap()).push(event_signal(e).unwrap()));
                    }
                },
                None => {},
            }
            i = i + 1;
            proof {
                assert(rest@ =~= all.skip(i as int));
            }
        }
        proof {
            assert(all.take(i as int) =~= all);
        }
        events
    }

    /// Whether a segment is open.
    pub fn is_speaking(&self) -> (b: bool)
        ensures
            b == self.view().speaking,
    {
        self.is_speaking
    }

    /// Closes the open segment: returns it when it holds at least
    /// `min_speech_chunks` speech chunks, and drops it otherwise.
    pub fn flush(&mut self) -> (r: Option<Vec<T>>)
        ensures
            final(self).wf(),
            final(self).timing_of() == old(self).timing_of(),
            !final(self).view().speaking,
            final(self).view().speech.len() == 0,
            final(self).view().speech_chunks == 0,
            final(self).view().pre == old(self).view().pre,
            final(self).view().silence == old(self).view().silence,
            match r {
                Some(seg) => old(self).view().speaking
                    && old(self).view().speech_chunks >= old(self).timing_of().min_speech_chunks
                    && seg@ == old(self).view().speech,
                None => !(old(self).view().speaking
                    && old(self).view().speech_chunks >= old(self).timing_of().min_speech_chunks),
            },
    {
        proof {
            use_type_invariant(&*self);
        }
        let timing = self.timing;
        let mut taken = VadProcessor::new(timing);
        std::mem::swap(&mut taken, self);
        let VadProcessor {
            timing: _,
            pre_buffer: pre,
            speech_buffer: speech,
            is_speaking: speaking,
            silence_count: silence,
            speech_chunks: chunks,
        } = taken;
        *self = VadProcessor {
            timing,
            pre_buffer: pre,
            speech_buffer: Vec::new(),
            is_speaking: false,
            silence_count: silence,
            speech_chunks: 0,
        };
        if speaking && chunks >= timing.min_speech_chunks {
            Some(speech)
        } else {
            None
        }
    }

    /// Forgets everything buffered and returns to the idle state.
    pub fn reset(&mut self)
        ensures
            final(self).wf(),
            final(self).timing_of() == old(self).timing_of(),
            final(self).view().pre.len() == 0,
            final(self).view().speech.len() == 0,
            !final(self).view().speaking,
            final(self).view().silence == 0,
            final(self).view().speech_chunks == 0,
    {
        *self = VadProcessor::new(self.timing);
    }
}

} // verus!
