//! Speech-to-text backends: their settings and the requests they make.
use vstd::prelude::*;
use crate::text::chars_of;
use crate::voice::SttError;

verus! {

/// The response format the transcription API is asked for: plain JSON for
/// the `gpt-` models, verbose JSON (with segments) for the others.
pub open spec fn response_format(model: Seq<char>) -> Seq<char> {
    if model.len() >= 4 && model.take(4) == "gpt-"@ { "json"@ } else { "verbose_json"@ }
}

/// The response format the transcription API is asked for.
pub fn response_format_for_model(model: &str) -> (r: &'static str)
    ensures
        r@ == response_format(model@),
{
    let c = chars_of(model);
    let gpt = c.len() >= 4 && c[0] == 'g' && c[1] == 'p' && c[2] == 't' && c[3] == '-';
    proof {
        reveal_strlit("gpt-");
        if c@.len() >= 4 {
            if gpt {
                assert(c@.take(4) =~= "gpt-"@);
            } else if c@.take(4) == "gpt-"@ {
                assert(c@.take(4)[0] == 'g' && c@.take(4)[1] == 'p' && c@.take(4)[2] == 't' && c@.take(4)[3] == '-');
            }
        }
    }
    if gpt {
        "json"
    } else {
        "verbose_json"
    }
}

/// The prompt sent with a transcription: the vocabulary prompt and the
/// conversation context, each when present.
pub open spec fn combined_prompt(vocab: Option<Seq<char>>, context: Option<Seq<char>>) -> Option<Seq<char>> {
    match (vocab, context) {
        (Some(p), Some(c)) => Some(p + "\n\nContext: "@ + c),
        (Some(p), None) => Some(p),
        (None, Some(c)) => Some("Context: "@ + c),
        (None, None) => None,
    }
}

/// The view of an optional string slice.
pub open spec fn opt_str(o: Option<&str>) -> Option<Seq<char>> {
    match o {
        Some(s) => Some(s@),
        None => None,
    }
}

/// The prompt sent with a transcription.
pub fn combine_prompt(vocab: Option<&str>, context: Option<&str>) -> (r: Option<String>)
    ensures
        match r {
            Some(s) => combined_prompt(opt_str(vocab), opt_str(context)) == Some(s@),
            None => combined_prompt(opt_str(vocab), opt_str(context)) is None,
        },
{
    match (vocab, context) {
        (Some(p), Some(c)) => {
            let mut s = String::from_str(p);
            s.append("\n\nContext: ");
            s.append(c);
            Some(s)
        },
        (Some(p), None) => Some(String::from_str(p)),
        (None, Some(c)) => {
            let mut s = String::from_str("Context: ");
            s.append(c);
            Some(s)
        },
        (None, None) => None,
    }
}

/// Settings of the batch transcription service.
pub struct OpenAiStt {
    pub api_key: String,
    pub base_url: String,
    pub model: String,
    pub language: String,
    /// Vocabulary prompt for domain terms.
    pub prompt: Option<String>,
}

impl OpenAiStt {
    /// The service's defaults with the given key.
    pub fn new(api_key: &str) -> (s: Self)
        ensures
            s.api_key@ == api_key@,
            s.base_url@ == "https://api.openai.com/v1"@,
            s.model@ == "gpt-4o-transcribe"@,
            s.language@ == "en"@,
            s.prompt is None,
    {
        OpenAiStt {
            api_key: String::from_str(api_key),
            base_url: String::from_str("https://api.openai.com/v1"),
            model: String::from_str("gpt-4o-transcribe"),
            language: String::from_str("en"),
            prompt: None,
        }
    }

    /// The same settings with another endpoint.
    pub fn with_base_url(self, url: &str) -> (s: Self)
        ensures
            s.base_url@ == url@,
            s.api_key == self.api_key,
            s.model == self.model,
            s.language == self.language,
            s.prompt == self.prompt,
    {
        let mut s = self;
        s.base_url = String::from_str(url);
        s
    }

    /// The same settings with another model.
    pub fn with_model(self, model: &str) -> (s: Self)
        ensures
            s.model@ == model@,
            s.api_key == self.api_key,
            s.base_url == self.base_url,
            s.language == self.language,
            s.prompt == self.prompt,
    {
        let mut s = self;
        s.model = String::from_str(model);
        s
    }

    /// The same settings with another language.
    pub fn with_language(self, lang: &str) -> (s: Self)
        ensures
            s.language@ == lang@,
            s.api_key == self.api_key,
            s.base_url == self.base_url,
            s.model == self.model,
            s.prompt == self.prompt,
    {
        let mut s = self;
        s.language = String::from_str(lang);
        s
    }

    /// The same settings with a vocabulary prompt.
    pub fn with_prompt(self, prompt: &str) -> (s: Self)
        ensures
            s.prompt matches Some(p) && p@ == prompt@,
            s.api_key == self.api_key,
            s.base_url == self.base_url,
            s.model == self.model,
            s.language == self.language,
    {
        let mut s = self;
        s.prompt = Some(String::from_str(prompt));
        s
    }

    /// The endpoint of transcription requests.
    pub fn transcription_url(&self) -> (u: String)
        ensures
            u@ == self.base_url@ + "/audio/transcriptions"@,
    {
        let mut u = self.base_url.clone();
        u.append("/audio/transcriptions");
        u
    }

    /// The prompt of a request with the given context.
    pub fn request_prompt(&self, context: Option<&str>) -> (r: Option<String>)
        ensures
            match r {
                Some(s) => combined_prompt(
                    match self.prompt {
                        Some(p) => Some(p@),
                        None => None,
                    },
                    opt_str(context),
                ) == Some(s@),
                None => combined_prompt(
                    match self.prompt {
                        Some(p) => Some(p@),
                        None => None,
                    },
                    opt_str(context),
                ) is None,
            },
    {
        let vocab: Option<&str> = match &self.prompt {
            Some(p) => Some(p.as_str()),
            None => None,
        };
        combine_prompt(vocab, context)
    }
}

/// Settings of a realtime transcription session.
pub struct StreamingSttConfig {
    pub api_key: String,
    pub model: String,
    pub language: String,
    pub prompt: Option<String>,
    /// Server-side speech threshold, in thousandths.
    pub vad_threshold_milli: u32,
    pub silence_duration_ms: u32,
    pub noise_reduction: bool,
    /// The endpoint, when not the default one.
    pub url: Option<String>,
}

impl StreamingSttConfig {
    /// The session defaults with the given key.
    pub fn new(api_key: &str) -> (c: Self)
        ensures
            c.api_key@ == api_key@,
            c.model@ == "gpt-4o-mini-realtime-preview"@,
            c.language@ == "en"@,
            c.prompt is None,
            c.vad_threshold_milli == 500,
            c.silence_duration_ms == 700,
            c.noise_reduction,
            c.url is None,
    {
        StreamingSttConfig {
            api_key: String::from_str(api_key),
            model: String::from_str("gpt-4o-mini-realtime-preview"),
            language: String::from_str("en"),
            prompt: None,
            vad_threshold_milli: 500,
            silence_duration_ms: 700,
            noise_reduction: true,
            url: None,
        }
    }

    /// The same settings with another language.
    pub fn with_language(self, lang: &str) -> (c: Self)
        ensures
            c.language@ == lang@,
            c.api_key == self.api_key,
            c.model == self.model,
            c.prompt == self.prompt,
            c.url == self.url,
    {
        let mut c = self;
        c.language = String::from_str(lang);
        c
    }

    /// The same settings with instructions.
    pub fn with_prompt(self, prompt: &str) -> (c: Self)
        ensures
            c.prompt matches Some(p) && p@ == prompt@,
            c.api_key == self.api_key,
            c.model == self.model,
            c.language == self.language,
            c.url == self.url,
    {
        let mut c = self;
        c.prompt = Some(String::from_str(prompt));
        c
    }
}

/// The speech-to-text backends.
pub enum SttBackendKind {
    Realtime,
    Whisper,
    Parakeet,
    /// A name no backend answers to.
    Other(String),
}

/// The backend a name selects.
pub open spec fn backend_named(name: Seq<char>) -> int {
    if name == "realtime"@ { 0 } else if name == "whisper"@ { 1 } else if name == "parakeet"@ { 2 } else { 3 }
}

/// The kind's index in `backend_named`'s numbering.
pub open spec fn kind_index(k: SttBackendKind) -> int {
    match k {
        SttBackendKind::Realtime => 0,
        SttBackendKind::Whisper => 1,
        SttBackendKind::Parakeet => 2,
        SttBackendKind::Other(_) => 3,
    }
}

/// Chooses the speech-to-text backend: a known name in the environment
/// override wins, otherwise the configured name decides.
pub fn choose_stt_backend(env_override: Option<&str>, configured: &str) -> (k: SttBackendKind)
    ensures
        kind_index(k) == (match env_override {
            Some(o) => if backend_named(o@) < 3 { backend_named(o@) } else { backend_named(configured@) },
            None => backend_named(configured@),
        }),
        k matches SttBackendKind::Other(n) ==> n@ == configured@,
{
    let o = match env_override {
        Some(o) => kind_of(o),
        None => SttBackendKind::Other(String::new()),
    };
    match o {
        SttBackendKind::Other(_) => kind_of(configured),
        k => k,
    }
}

/// The backend a name selects.
fn kind_of(name: &str) -> (k: SttBackendKind)
    ensures
        kind_index(k) == backend_named(name@),
        k matches SttBackendKind::Other(n) ==> n@ == name@,
{
    if crate::text::str_eq(name, "realtime") {
        SttBackendKind::Realtime
    } else if crate::text::str_eq(name, "whisper") {
        SttBackendKind::Whisper
    } else if crate::text::str_eq(name, "parakeet") {
        SttBackendKind::Parakeet
    } else {
        SttBackendKind::Other(String::from_str(name))
    }
}

/// Settings of the local Parakeet recogniser.
pub struct ParakeetStt {
    /// Directory with the encoder, decoder and vocabulary files.
    pub model_dir: String,
    pub language: String,
}

impl ParakeetStt {
    /// A recogniser over the model in `model_dir`.
    pub fn new(model_dir: String, language: &str) -> (s: Self)
        ensures
            s.model_dir == model_dir,
            s.language@ == language@,
    {
        ParakeetStt { model_dir, language: String::from_str(language) }
    }

    /// The name shown in the status bar.
    pub fn display_name(&self) -> (s: &'static str)
        ensures
            s@ == "parakeet-tdt"@,
    {
        "parakeet-tdt"
    }
}

/// The files a Parakeet model directory must hold.
pub fn parakeet_model_files() -> (r: Vec<&'static str>)
    ensures
        r@.map_values(|s: &'static str| s@) == seq!["encoder-model.onnx"@, "decoder_joint-model.onnx"@, "vocab.txt"@],
{
    let r = vec!["encoder-model.onnx", "decoder_joint-model.onnx", "vocab.txt"];
    proof {
        assert(r@.map_values(|s: &'static str| s@) =~= seq!["encoder-model.onnx"@, "decoder_joint-model.onnx"@, "vocab.txt"@]);
    }
    r
}

/// Settings of the local Whisper recogniser.
pub struct WhisperStt {
    /// Path of the GGML model file.
    pub model_path: String,
    pub language: String,
}

impl WhisperStt {
    /// A recogniser over the model at `model_path`.
    pub fn new(model_path: String, language: &str) -> (s: Self)
        ensures
            s.model_path == model_path,
            s.language@ == language@,
    {
        WhisperStt { model_path, language: String::from_str(language) }
    }

    /// The name shown in the status bar.
    pub fn display_name(&self) -> (s: &'static str)
        ensures
            s@ == "whisper"@,
    {
        "whisper"
    }
}

/// What a transcription reply means: a status other than 200 is an API
/// error carrying the status and the reply's body; otherwise a missing or
/// empty text means nothing was heard, and any other text is the result.
pub fn transcription_result(status: u16, body: String, text: Option<String>) -> (r: Result<String, SttError>)
    ensures
        status != 200 ==> (r matches Err(SttError::Api { status: s, body: b }) && s == status && b@ == body@),
        status == 200 ==> match text {
            Some(t) => if t@.len() > 0 {
                r matches Ok(x) && x@ == t@
            } else {
                r matches Err(SttError::Empty)
            },
            None => r matches Err(SttError::Empty),
        },
{
    if status != 200 {
        return Err(SttError::Api { status, body });
    }
    match text {
        Some(t) => {
            if t.as_str().is_empty() {
                Err(SttError::Empty)
            } else {
                Ok(t)
            }
        },
        None => Err(SttError::Empty),
    }
}

} // verus!
