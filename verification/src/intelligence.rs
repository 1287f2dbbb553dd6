//! Live intelligence: what the translation and rolling-summary pipelines
//! collect, and what they ask the language model.
use vstd::prelude::*;
use crate::prompts::joined;

verus! {

/// The rolling summary's state between ticks.
pub struct SummaryCollector {
    /// Final transcript lines received since the last summary.
    pub pending_chunks: Vec<String>,
    /// The last summary, kept as context for the next one.
    pub last_summary: Option<String>,
}

/// The views of a list of strings.
pub open spec fn chunk_views(v: Seq<String>) -> Seq<Seq<char>> {
    v.map_values(|s: String| s@)
}

impl SummaryCollector {
    /// An empty collector.
    pub fn new() -> (c: Self)
        ensures
            c.pending_chunks@.len() == 0,
            c.last_summary is None,
    {
        SummaryCollector { pending_chunks: Vec::new(), last_summary: None }
    }

    /// Keeps a final transcript line for the next summary; empty lines are
    /// dropped.
    pub fn collect(&mut self, text: String)
        ensures
            text@.len() == 0 ==> final(self).pending_chunks@ == old(self).pending_chunks@,
            text@.len() > 0 ==> final(self).pending_chunks@ == old(self).pending_chunks@.push(text),
            final(self).last_summary == old(self).last_summary,
    {
        if !text.as_str().is_empty() {
            self.pending_chunks.push(text);
        }
    }

    /// At a tick: the lines collected since the last summary and the last
    /// summary, or nothing when no line came in. The collected lines are
    /// handed over and forgotten.
    pub fn take_batch(&mut self) -> (r: Option<(Vec<String>, Option<String>)>)
        ensures
            old(self).pending_chunks@.len() == 0 ==> r is None && final(self).pending_chunks@ == old(self).pending_chunks@,
            old(self).pending_chunks@.len() > 0 ==> (r matches Some((chunks, prior))
                && chunks@ == old(self).pending_chunks@ && prior == old(self).last_summary)
                && final(self).pending_chunks@.len() == 0,
            final(self).last_summary == old(self).last_summary,
    {
        if self.pending_chunks.len() == 0 {
            return None;
        }
        let mut chunks: Vec<String> = Vec::new();
        std::mem::swap(&mut chunks, &mut self.pending_chunks);
        let prior = match &self.last_summary {
            Some(s) => Some(s.clone()),
            None => None,
        };
        Some((chunks, prior))
    }

    /// Remembers a new summary as context for the next one.
    pub fn record_summary(&mut self, summary: String)
        ensures
            final(self).last_summary == Some(summary),
            final(self).pending_chunks@ == old(self).pending_chunks@,
    {
        self.last_summary = Some(summary);
    }
}

/// The messages of a live translation into `to_lang`.
pub fn translate_messages(text: &str, to_lang: &str) -> (m: (String, String))
    ensures
        m.0@ == "You are a translator. Translate the text to "@ + to_lang@
            + ". Return ONLY the translated text, no explanations."@,
        m.1@ == text@,
{
    let mut s = String::from_str("You are a translator. Translate the text to ");
    s.append(to_lang);
    s.append(". Return ONLY the translated text, no explanations.");
    (s, String::from_str(text))
}

/// The messages of a rolling summary: the collected lines joined by line
/// feeds, then the previous summary when there is one.
pub fn summarize_messages(chunks: &Vec<String>, prior: Option<&str>, target_lang: &str) -> (m: (String, String))
    ensures
        m.0@ == "You are a live call summarizer. Produce 3-5 bullet points capturing the key meaning of the conversation so far. Write in "@
            + target_lang@ + ". Focus on meaning, not word-for-word transcription. Be concise."@,
        m.1@ == "Transcript:\n"@ + joined(chunk_views(chunks@), "\n"@) + (match prior {
            Some(p) => "\nPrevious summary:\n"@ + p@,
            None => Seq::empty(),
        }),
{
    let mut s = String::from_str(
        "You are a live call summarizer. Produce 3-5 bullet points capturing the key meaning of the conversation so far. Write in ",
    );
    s.append(target_lang);
    s.append(". Focus on meaning, not word-for-word transcription. Be concise.");
    let mut u = String::from_str("Transcript:\n");
    let ghost views = chunk_views(chunks@);
    let ghost base = u@;
    let mut i: usize = 0;
    while i < chunks.len()
        invariant
            i <= chunks@.len(),
            views == chunk_views(chunks@),
            u@ == base + joined(views.take(i as int), "\n"@),
        decreases chunks.len() - i,
    {
        proof {
            assert(views.take(i + 1).drop_last() =~= views.take(i as int));
            assert(views.take(i + 1).last() == chunks@[i as int]@);
        }
        if i > 0 {
            u.append("\n");
        }
        u.append(chunks[i].as_str());
        proof {
            if i == 0 {
                assert(views.take(1) =~= seq![chunks@[0]@]);
                assert(joined(views.take(0), "\n"@) =~= Seq::<char>::empty());
            }
            assert(u@ =~= base + joined(views.take(i + 1), "\n"@));
        }
        i = i + 1;
    }
    proof {
        assert(views.take(i as int) =~= views);
    }
    match prior {
        Some(p) => {
            u.append("\nPrevious summary:\n");
            u.append(p);
        },
        None => {},
    }
    (s, u)
}

/// The messages of a post-call analysis.
pub fn analysis_messages(transcript: &str) -> (m: (String, String))
    ensures
        m.0@ == crate::prompts::ANALYZE_SYSTEM@,
        m.1@ == "Transcript:\n"@ + transcript@,
{
    let mut u = String::from_str("Transcript:\n");
    u.append(transcript);
    (String::from_str(crate::prompts::ANALYZE_SYSTEM), u)
}

} // verus!
