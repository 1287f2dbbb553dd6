//! The agent's tools: their arguments and the messages they send to the
//! language model.
use vstd::prelude::*;

verus! {

/// Arguments of the call-analysis tool.
pub struct AnalyzeCallArgs {
    pub transcript: String,
}

/// Arguments of the question-answering tool.
pub struct AskAboutCallsArgs {
    pub question: String,
    pub context: String,
}

/// Arguments of the follow-up drafting tool.
pub struct DraftFollowUpArgs {
    pub analysis_json: String,
    pub language: String,
}

/// Arguments of the rolling-summary tool.
pub struct RollingSummaryArgs {
    pub chunks: Vec<String>,
    pub prior_summary: Option<String>,
    pub target_lang: String,
}

/// Arguments of the call-search tool.
pub struct SearchCallsArgs {
    pub query: String,
}

/// Arguments of the translation tool.
pub struct TranslateArgs {
    pub text: String,
    pub from_lang: String,
    pub to_lang: String,
}

/// The call-search tool, over the calls stored in a directory.
pub struct SearchCallsTool {
    pub calls_dir: String,
}

impl SearchCallsTool {
    /// The tool's name.
    pub fn name(&self) -> (s: &'static str)
        ensures
            s@ == "search_calls"@,
    {
        "search_calls"
    }

    /// Whether the tool only reads.
    pub fn is_read_only(&self) -> (b: bool)
        ensures
            b,
    {
        true
    }
}

/// The items of `s` joined by `sep`.
pub open spec fn joined(s: Seq<Seq<char>>, sep: Seq<char>) -> Seq<char>
    decreases s.len(),
{
    if s.len() == 0 {
        Seq::empty()
    } else if s.len() == 1 {
        s[0]
    } else {
        joined(s.drop_last(), sep) + sep + s.last()
    }
}

/// `a` followed by `b`.
fn cat(a: &str, b: &str) -> (r: String)
    ensures
        r@ == a@ + b@,
{
    let mut r = String::from_str(a);
    r.append(b);
    r
}

/// The instructions of the analysis tool.
pub const ANALYZE_SYSTEM: &'static str = "You are a call analysis assistant. Analyze the transcript and produce a structured analysis with: summary, action_items (each with description, optional assignee, optional deadline), decisions, open_questions, mood (positive/neutral/negative/mixed), and themes.";

/// The instructions of the question-answering tool.
pub const ASK_SYSTEM: &'static str = "You are a helpful assistant that answers questions about past calls. Use the provided call context to give accurate, concise answers. If the context doesn't contain enough information, say so.";

impl AnalyzeCallArgs {
    /// The system and user messages of the request.
    pub fn messages(&self) -> (m: (String, String))
        ensures
            m.0@ == ANALYZE_SYSTEM@,
            m.1@ == "Transcript:\n"@ + self.transcript@,
    {
        (String::from_str(ANALYZE_SYSTEM), cat("Transcript:\n", self.transcript.as_str()))
    }
}

impl AskAboutCallsArgs {
    /// The system and user messages of the request.
    pub fn messages(&self) -> (m: (String, String))
        ensures
            m.0@ == ASK_SYSTEM@,
            m.1@ == "Call context:\n"@ + self.context@ + "\n\nQuestion: "@ + self.question@,
    {
        let mut u = cat("Call context:\n", self.context.as_str());
        u.append("\n\nQuestion: ");
        u.append(self.question.as_str());
        (String::from_str(ASK_SYSTEM), u)
    }
}

impl DraftFollowUpArgs {
    /// The system and user messages of the request.
    pub fn messages(&self) -> (m: (String, String))
        ensures
            m.0@ == "You are a professional email writer. Draft a concise follow-up email based on the call analysis below. Write in "@
                + self.language@ + ". Include action items and next steps. Keep it professional and brief."@,
            m.1@ == "Call analysis:\n"@ + self.analysis_json@,
    {
        let mut s = String::from_str(
            "You are a professional email writer. Draft a concise follow-up email based on the call analysis below. Write in ",
        );
        s.append(self.language.as_str());
        s.append(". Include action items and next steps. Keep it professional and brief.");
        (s, cat("Call analysis:\n", self.analysis_json.as_str()))
    }
}

impl TranslateArgs {
    /// The system and user messages of the request.
    pub fn messages(&self) -> (m: (String, String))
        ensures
            m.0@ == "You are a translator. Translate the text from "@ + self.from_lang@ + " to "@ + self.to_lang@
                + ". Return ONLY the translated text, no explanations."@,
            m.1@ == self.text@,
    {
        let mut s = String::from_str("You are a translator. Translate the text from ");
        s.append(self.from_lang.as_str());
        s.append(" to ");
        s.append(self.to_lang.as_str());
        s.append(". Return ONLY the translated text, no explanations.");
        (s, self.text.clone())
    }
}

impl RollingSummaryArgs {
    /// The system and user messages of the request: the chunks joined by
    /// line feeds, then the prior summary when there is one.
    pub fn messages(&self) -> (m: (String, String))
        ensures
            m.0@ == "You are a live call summarizer. Produce 2-3 bullet points capturing the key meaning of the conversation so far. Write in "@
                + self.target_lang@ + ". Focus on meaning, not word-for-word transcription. Be concise."@,
            m.1@ == "Transcript:\n"@ + joined(self.chunks@.map_values(|c: String| c@), "\n"@) + (match self.prior_summary {
                Some(p) => "\nPrevious summary:\n"@ + p@,
                None => Seq::empty(),
            }),
    {
        let mut s = String::from_str(
            "You are a live call summarizer. Produce 2-3 bullet points capturing the key meaning of the conversation so far. Write in ",
        );
        s.append(self.target_lang.as_str());
        s.append(". Focus on meaning, not word-for-word transcription. Be concise.");
        let mut u = String::from_str("Transcript:\n");
        let ghost views = self.chunks@.map_values(|c: String| c@);
        let ghost base = u@;
        let mut i: usize = 0;
        while i < self.chunks.len()
            invariant
                i <= self.chunks@.len(),
                views == self.chunks@.map_values(|c: String| c@),
                u@ == base + joined(views.take(i as int), "\n"@),
            decreases self.chunks.len() - i,
        {
            proof {
                assert(views.take(i + 1).drop_last() =~= views.take(i as int));
                assert(views.take(i + 1).last() == self.chunks@[i as int]@);
            }
            if i > 0 {
                u.append("\n");
            }
            u.append(self.chunks[i].as_str());
            proof {
                if i == 0 {
                    assert(views.take(1) =~= seq![self.chunks@[0]@]);
                    assert(joined(views.take(0), "\n"@) =~= Seq::<char>::empty());
                }
                assert(u@ =~= base + joined(views.take(i + 1), "\n"@));
            }
            i = i + 1;
        }
        proof {
            assert(views.take(i as int) =~= views);
        }
        match &self.prior_summary {
            Some(p) => {
                u.append("\nPrevious summary:\n");
                u.append(p.as_str());
            },
            None => {},
        }
        (s, u)
    }
}

} // verus!
