//! Calls, their analyses and the assistant's configuration.
use vstd::prelude::*;
use vstd::string::StringSliceAdditionalSpecFns;
use vstd::utf8::encode_utf8;
use crate::text::str_eq;

verus! {

/// A bookmark placed during a live call.
pub struct Bookmark {
    /// Milliseconds from the start of the call.
    pub offset_ms: u64,
    pub note: Option<String>,
}

/// The contents of a call, as mathematical values.
pub struct CallView {
    pub id: Seq<char>,
    pub created_at_ms: i64,
    pub duration_ms: u64,
    pub participants: Seq<String>,
    pub language: Option<String>,
    pub transcript: Seq<char>,
    pub translation: Option<String>,
    pub tags: Seq<String>,
    pub audio_path: Option<String>,
    pub bookmarks: Seq<Bookmark>,
}

impl Clone for Bookmark {
    fn clone(&self) -> (r: Self)
        ensures
            r == *self,
    {
        let note = match &self.note {
            Some(n) => Some(n.clone()),
            None => None,
        };
        Bookmark { offset_ms: self.offset_ms, note }
    }
}

/// A recorded call with its transcript and metadata.
pub struct Call {
    pub id: String,
    /// Start of the call, in milliseconds since the Unix epoch (UTC).
    pub created_at_ms: i64,
    /// Length of the call in milliseconds.
    pub duration_ms: u64,
    pub participants: Vec<String>,
    pub language: Option<String>,
    pub transcript: String,
    pub translation: Option<String>,
    pub tags: Vec<String>,
    pub audio_path: Option<String>,
    pub bookmarks: Vec<Bookmark>,
}

/// A copy of a list of strings.
pub fn clone_strings(v: &Vec<String>) -> (r: Vec<String>)
    ensures
        r@ == v@,
{
    let mut r: Vec<String> = Vec::new();
    let mut i: usize = 0;
    while i < v.len()
        invariant
            i <= v.len(),
            r@ == v@.subrange(0, i as int),
        decreases v.len() - i,
    {
        r.push(v[i].clone());
        i = i + 1;
    }
    proof {
        assert(v@.subrange(0, v@.len() as int) =~= v@);
    }
    r
}

/// A copy of an optional string.
pub fn clone_opt(o: &Option<String>) -> (r: Option<String>)
    ensures
        r == *o,
{
    match o {
        Some(s) => Some(s.clone()),
        None => None,
    }
}

impl View for Call {
    type V = CallView;

    open spec fn view(&self) -> CallView {
        CallView {
            id: self.id@,
            created_at_ms: self.created_at_ms,
            duration_ms: self.duration_ms,
            participants: self.participants@,
            language: self.language,
            transcript: self.transcript@,
            translation: self.translation,
            tags: self.tags@,
            audio_path: self.audio_path,
            bookmarks: self.bookmarks@,
        }
    }
}

impl Clone for Call {
    fn clone(&self) -> (r: Self)
        ensures
            r@ == self@,
    {
        let mut bookmarks: Vec<Bookmark> = Vec::new();
        let mut i: usize = 0;
        while i < self.bookmarks.len()
            invariant
                i <= self.bookmarks.len(),
                bookmarks@ == self.bookmarks@.subrange(0, i as int),
            decreases self.bookmarks.len() - i,
        {
            bookmarks.push(self.bookmarks[i].clone());
            i = i + 1;
        }
        proof {
            assert(self.bookmarks@.subrange(0, self.bookmarks@.len() as int) =~= self.bookmarks@);
        }
        let r = Call {
            id: self.id.clone(),
            created_at_ms: self.created_at_ms,
            duration_ms: self.duration_ms,
            participants: clone_strings(&self.participants),
            language: clone_opt(&self.language),
            transcript: self.transcript.clone(),
            translation: clone_opt(&self.translation),
            tags: clone_strings(&self.tags),
            audio_path: clone_opt(&self.audio_path),
            bookmarks,
        };
        proof {
            assert(r.participants@ =~= self.participants@);
            assert(r.tags@ =~= self.tags@);
            assert(r.bookmarks@ =~= self.bookmarks@);
        }
        r
    }
}

/// How often a theme or tag occurs across calls.
pub struct ThemeCount {
    pub theme: String,
    pub count: usize,
}

impl Clone for ThemeCount {
    fn clone(&self) -> (r: Self)
        ensures
            r == *self,
    {
        ThemeCount { theme: self.theme.clone(), count: self.count }
    }
}

/// The views of a list of calls.
pub open spec fn call_views(v: Seq<Call>) -> Seq<CallView> {
    v.map_values(|c: Call| c@)
}

/// The (count, theme) pairs of a list of theme counts.
pub open spec fn theme_pairs(v: Seq<ThemeCount>) -> Seq<(i128, Seq<char>)> {
    v.map_values(|t: ThemeCount| (t.count as i128, t.theme@))
}

/// An action item taken from a call.
pub struct ActionItem {
    pub description: String,
    pub assignee: Option<String>,
    pub deadline: Option<String>,
}

/// The overall mood of a call.
#[derive(Clone, Copy, Debug, PartialEq, Eq, Structural)]
pub enum Mood {
    Positive,
    Neutral,
    Negative,
    Mixed,
}

/// The post-call analysis.
pub struct CallAnalysis {
    pub summary: String,
    pub action_items: Vec<ActionItem>,
    pub follow_up_draft: Option<String>,
    pub decisions: Vec<String>,
    pub open_questions: Vec<String>,
    pub mood: Mood,
    pub themes: Vec<String>,
}

/// How the moods of the analysed calls are distributed.
pub struct MoodSummary {
    pub positive: usize,
    pub neutral: usize,
    pub negative: usize,
    pub mixed: usize,
}

/// Insights across several calls.
pub struct CallInsights {
    pub recurring_themes: Vec<ThemeCount>,
    pub mood_summary: MoodSummary,
    pub open_action_items: Vec<ActionItem>,
    pub key_patterns: Vec<String>,
    pub total_calls: usize,
    pub period: String,
}

/// Whether an action item is done, and when (milliseconds since the epoch).
pub struct ActionState {
    pub completed: bool,
    pub completed_at_ms: Option<i64>,
}

/// An action item with its id, its call and its state.
pub struct TrackedAction {
    pub action_id: String,
    pub call_id: String,
    /// Start of the call, in milliseconds since the Unix epoch.
    pub call_date_ms: i64,
    pub description: String,
    pub assignee: Option<String>,
    pub deadline: Option<String>,
    pub state: ActionState,
}

/// The SHA-256 digest of the bytes, as the `sha2` crate computes it.
pub uninterp spec fn sha256(bytes: Seq<u8>) -> Seq<u8>;

/// `sha2::Sha256::digest`: the contract names the digest and states its
/// documented length of 32 bytes.
#[verifier::external_body]
fn sha256_digest(bytes: &[u8]) -> (r: Vec<u8>)
    ensures
        r@ == sha256(bytes@),
        r@.len() == 32,
{
    <sha2::Sha256 as sha2::Digest>::digest(bytes).to_vec()
}

/// The lowercase hexadecimal digit of a value below 16.
pub open spec fn hex_digit(n: nat) -> char {
    if n < 10 {
        ((n + 48) as u32) as char
    } else {
        ((n - 10 + 97) as u32) as char
    }
}

/// Two lowercase hexadecimal digits per byte, in order.
pub open spec fn hex_lower(bytes: Seq<u8>) -> Seq<char>
    decreases bytes.len(),
{
    if bytes.len() == 0 {
        Seq::empty()
    } else {
        hex_lower(bytes.drop_last()) + seq![hex_digit((bytes.last() / 16) as nat), hex_digit((bytes.last() % 16) as nat)]
    }
}

/// The lowercase hexadecimal digit of a value below 16.
fn hex_char(n: u8) -> (c: char)
    requires
        n < 16,
    ensures
        c == hex_digit(n as nat),
{
    if n < 10 {
        let u: u32 = (n as u32) + 48;
        proof {
            assert(((n + 48) as u32) == u);
        }
        let c = char_from_ascii(u);
        c
    } else {
        let u: u32 = (n as u32) - 10 + 97;
        let c = char_from_ascii(u);
        c
    }
}

/// The character of an ASCII code.
fn char_from_ascii(u: u32) -> (c: char)
    requires
        u < 128,
    ensures
        c == u as char,
{
    proof {
        vstd::utf8::char_u32_cast(u as char, u);
    }
    (u as u8) as char
}

/// A deterministic id for an action item: the first eight hexadecimal
/// digits of the SHA-256 digest of "call_id:description".
pub fn action_id(call_id: &str, description: &str) -> (r: String)
    ensures
        r@ == hex_lower(sha256(encode_utf8(call_id@ + seq![':'] + description@)).take(4)),
        r@.len() == 8,
        forall|i: int| 0 <= i < 8 ==> {
            let c = #[trigger] r@[i];
            ('0' <= c && c <= '9') || ('a' <= c && c <= 'f')
        },
{
    let mut input: Vec<u8> = Vec::new();
    let a = call_id.as_bytes();
    let b = description.as_bytes();
    let mut i: usize = 0;
    while i < a.len()
        invariant
            i <= a@.len(),
            input@ == a@.take(i as int),
        decreases a.len() - i,
    {
        input.push(a[i]);
        i = i + 1;
        proof {
            assert(input@ =~= a@.take(i as int));
        }
    }
    input.push(58u8);
    let mut j: usize = 0;
    let ghost head = input@;
    while j < b.len()
        invariant
            j <= b@.len(),
            input@ == head + b@.take(j as int),
        decreases b.len() - j,
    {
        input.push(b[j]);
        j = j + 1;
        proof {
            assert(input@ =~= head + b@.take(j as int));
        }
    }
    proof {
        assert(a@.take(a@.len() as int) =~= a@);
        assert(b@.take(b@.len() as int) =~= b@);
        crate::text::lemma_encode_concat(call_id@, seq![':'] + description@);
        crate::text::lemma_encode_concat(seq![':'], description@);
        assert(seq![':'].drop_first() =~= Seq::<char>::empty());
        assert(encode_utf8(seq![':']) =~= seq![58u8]) by {
            assert(encode_utf8(Seq::<char>::empty()) =~= Seq::<u8>::empty());
            assert((58u32 & 0x7F) as u8 == 58u8) by (bit_vector);
            assert(':' as u32 == 58u32);
            assert(seq![':'][0] == ':');
        }
        assert(input@ =~= encode_utf8(call_id@ + seq![':'] + description@)) by {
            assert(call_id@ + seq![':'] + description@ =~= call_id@ + (seq![':'] + description@));
        }
    }
    let digest = sha256_digest(input.as_slice());
    let mut out: Vec<char> = Vec::new();
    let mut k: usize = 0;
    while k < 4
        invariant
            k <= 4,
            digest@.len() == 32,
            out@ == hex_lower(digest@.take(k as int)),
            out@.len() == 2 * k,
        decreases 4 - k,
    {
        let byte = digest[k];
        out.push(hex_char(byte / 16));
        out.push(hex_char(byte % 16));
        proof {
            assert(digest@.take(k + 1).drop_last() =~= digest@.take(k as int));
            assert(out@ =~= hex_lower(digest@.take(k + 1)));
        }
        k = k + 1;
    }
    proof {
        crate::laws::law_hex_shape(digest@.take(4));
    }
    crate::text::string_from_chars(out.as_slice())
}

/// The assistant's configuration.
pub struct Config {
    /// The user's language, for translations and summaries.
    pub my_language: String,
    pub stt_backend: String,
    pub llm_model: String,
    pub summary_lag_secs: u32,
    /// Which sources are captured, e.g. "mic+system".
    pub capture: String,
    /// "auto", "ollama", or another backend.
    pub llm_backend: String,
    pub ollama_model: String,
}

/// The default language.
pub fn default_language() -> (s: String)
    ensures
        s@ == "ru"@,
{
    String::from_str("ru")
}

/// The default speech-to-text backend.
pub fn default_stt_backend() -> (s: String)
    ensures
        s@ == "realtime"@,
{
    String::from_str("realtime")
}

/// The default language model.
pub fn default_llm_model() -> (s: String)
    ensures
        s@ == "gemini-2.5-flash"@,
{
    String::from_str("gemini-2.5-flash")
}

/// The default lag of the rolling summary, in seconds.
pub fn default_summary_lag() -> (n: u32)
    ensures
        n == 5,
{
    5
}

/// The default capture sources.
pub fn default_capture() -> (s: String)
    ensures
        s@ == "mic+system"@,
{
    String::from_str("mic+system")
}

/// The default language-model backend.
pub fn default_llm_backend() -> (s: String)
    ensures
        s@ == "auto"@,
{
    String::from_str("auto")
}

/// The default local model.
pub fn default_ollama_model() -> (s: String)
    ensures
        s@ == "llama3.2:3b"@,
{
    String::from_str("llama3.2:3b")
}

impl Default for Config {
    fn default() -> (c: Self)
        ensures
            c.my_language@ == "ru"@,
            c.stt_backend@ == "realtime"@,
            c.llm_model@ == "gemini-2.5-flash"@,
            c.summary_lag_secs == 5,
            c.capture@ == "mic+system"@,
            c.llm_backend@ == "auto"@,
            c.ollama_model@ == "llama3.2:3b"@,
    {
        Config {
            my_language: default_language(),
            stt_backend: default_stt_backend(),
            llm_model: default_llm_model(),
            summary_lag_secs: default_summary_lag(),
            capture: default_capture(),
            llm_backend: default_llm_backend(),
            ollama_model: default_ollama_model(),
        }
    }
}

impl Config {
    /// The model to use: the local model when the backend is "ollama", the
    /// configured one otherwise. `backend_override` (set by the `--local`
    /// flag through the environment) takes the place of `llm_backend`.
    pub fn effective_model(&self, backend_override: Option<&str>) -> (m: &str)
        ensures
            m@ == (if (match backend_override {
                Some(b) => b@,
                None => self.llm_backend@,
            }) == "ollama"@ {
                self.ollama_model@
            } else {
                self.llm_model@
            }),
    {
        let backend = match backend_override {
            Some(b) => b,
            None => self.llm_backend.as_str(),
        };
        if str_eq(backend, "ollama") {
            self.ollama_model.as_str()
        } else {
            self.llm_model.as_str()
        }
    }
}

} // verus!
