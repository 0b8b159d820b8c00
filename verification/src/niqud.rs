//! The niqud pipeline's data model and client seam: a sentence broken into
//! per-word niqud (diacritized) text plus the Latin pronunciation guide
//! derived from it by [`crate::hebrew::niqud_to_pronunciation`], never
//! guessed by a language model.
use vstd::prelude::*;
use crate::hebrew::{niqud_to_pronunciation, pronunciation_of};
use crate::text::{
    append_str, chars_of, last_line_or, last_stderr_line, split_ws, string_from_chars, views,
    ws_words,
};
use crate::tool_run::ToolRun;

verus! {

/// One word's niqud form and the pronunciation guide derived from it.
#[derive(Debug, Clone, PartialEq, Eq)]
pub struct NiqudWord {
    /// The word exactly as it appeared in the source sentence (no niqud).
    pub word: String,
    /// The word with niqud diacritics added.
    pub niqud: String,
    /// The hyphenated Latin pronunciation guide computed from `niqud`.
    pub pronunciation: String,
}

/// A whole sentence's word-by-word niqud result, in sentence order.
#[derive(Debug, Clone, PartialEq, Eq)]
pub struct NiqudResult {
    /// The sentence's words, in source order.
    pub words: Vec<NiqudWord>,
}

/// Errors of running a niqud tool or interpreting its output. Each message
/// is ready to show as-is.
#[derive(Debug, Clone, PartialEq, Eq)]
pub enum NiqudError {
    /// The external tool could not run, or exited with an error.
    ProcessFailed(String),
    /// The tool's output was not the expected shape.
    InvalidResponse(String),
    /// The model or its tokenizer could not be loaded (or none is set).
    ModelLoadFailed(String),
    /// The model failed while running inference.
    InferenceFailed(String),
}

/// Adds niqud diacritics and derived pronunciation guides to a Hebrew
/// sentence's words. A trait so callers can plug in a fixed-response fake
/// instead of a real niqud model or tool.
pub trait NiqudClient {
    /// Whether `outcome` is an answer this client may give when asked about
    /// `sentence`. Unless a client says more, any answer may come back.
    closed spec fn answers(&self, sentence: Seq<char>, outcome: Result<NiqudResult, NiqudError>) -> bool {
        true
    }

    /// Adds niqud to `sentence` and derives each word's pronunciation
    /// guide, in source-sentence order.
    fn transliterate_sentence(&self, sentence: &str) -> (outcome: Result<NiqudResult, NiqudError>)
        ensures
            self.answers(sentence@, outcome),
    ;
}

/// A niqud word built from a word and its niqud form.
pub open spec fn niqud_word_of(word: Seq<char>, niqud: Seq<char>, w: NiqudWord) -> bool {
    &&& w.word@ == word
    &&& w.niqud@ == niqud
    &&& w.pronunciation@ == pronunciation_of(niqud)
}

/// Builds a word's niqud entry, deriving its pronunciation guide from its
/// niqud text.
pub fn niqud_word(word: String, niqud: String) -> (w: NiqudWord)
    ensures
        niqud_word_of(word@, niqud@, w),
{
    let pronunciation = niqud_to_pronunciation(niqud.as_str());
    NiqudWord { word, niqud, pronunciation }
}

/// The niqud result for `(word, niqud)` pairs as a niqud tool reports
/// them: the pairs in order, each with its pronunciation guide derived from
/// the niqud text (never taken from the tool).
pub fn niqud_result_from_pairs(pairs: Vec<(String, String)>) -> (result: NiqudResult)
    ensures
        result.words@.len() == pairs@.len(),
        forall|k: int|
            0 <= k < pairs@.len() ==> niqud_word_of(
                pairs@[k].0@,
                pairs@[k].1@,
                #[trigger] result.words@[k],
            ),
{
    let mut words: Vec<NiqudWord> = Vec::new();
    let mut i: usize = 0;
    while i < pairs.len()
        invariant
            i <= pairs@.len(),
            words@.len() == i,
            forall|k: int|
                0 <= k < i ==> niqud_word_of(pairs@[k].0@, pairs@[k].1@, #[trigger] words@[k]),
        decreases pairs@.len() - i,
    {
        let w = niqud_word(pairs[i].0.clone(), pairs[i].1.clone());
        words.push(w);
        i = i + 1;
    }
    NiqudResult { words }
}


impl NiqudError {
    /// The error's message.
    pub fn message(&self) -> (m: String)
        ensures
            m@ == (match *self {
                NiqudError::ProcessFailed(e) => e@,
                NiqudError::InvalidResponse(e) => "failed to parse niqud CLI output: "@ + e@,
                NiqudError::ModelLoadFailed(e) => "failed to load niqud model: "@ + e@,
                NiqudError::InferenceFailed(e) => "niqud inference failed: "@ + e@,
            }),
    {
        let mut v: Vec<char> = Vec::new();
        match self {
            NiqudError::ProcessFailed(e) => {
                append_str(&mut v, e.as_str());
            },
            NiqudError::InvalidResponse(e) => {
                append_str(&mut v, "failed to parse niqud CLI output: ");
                append_str(&mut v, e.as_str());
            },
            NiqudError::ModelLoadFailed(e) => {
                append_str(&mut v, "failed to load niqud model: ");
                append_str(&mut v, e.as_str());
            },
            NiqudError::InferenceFailed(e) => {
                append_str(&mut v, "niqud inference failed: ");
                append_str(&mut v, e.as_str());
            },
        }
        string_from_chars(v.as_slice())
    }
}

/// The error a client gives when no niqud model is configured.
pub fn model_not_configured() -> (e: NiqudError)
    ensures
        e matches NiqudError::ModelLoadFailed(m) && m@ == "niqud model not configured"@,
{
    NiqudError::ModelLoadFailed(String::from_str("niqud model not configured"))
}

/// Whether `words` pairs the white-space-separated words of `sentence`
/// with those of `diacritized`, position by position, as far as both go,
/// each with the pronunciation derived from its niqud form.
pub open spec fn words_paired(sentence: Seq<char>, diacritized: Seq<char>, words: Seq<NiqudWord>) -> bool {
    let plain = ws_words(sentence);
    let marked = ws_words(diacritized);
    &&& words.len() == if plain.len() < marked.len() {
        plain.len()
    } else {
        marked.len()
    }
    &&& forall|k: int| 0 <= k < words.len() ==> niqud_word_of(plain[k], marked[k], #[trigger] words[k])
}

/// The niqud result for `sentence` given its diacritized form: the two
/// are split on white space and paired word by word (as far as both go),
/// each word's pronunciation derived from its niqud form.
pub fn niqud_result_from_diacritized(sentence: &str, diacritized: &str) -> (result: NiqudResult)
    ensures
        words_paired(sentence@, diacritized@, result.words@),
{
    let s = chars_of(sentence);
    let d = chars_of(diacritized);
    let plain = split_ws(s.as_slice());
    let marked = split_ws(d.as_slice());
    let n = if plain.len() < marked.len() {
        plain.len()
    } else {
        marked.len()
    };
    let mut words: Vec<NiqudWord> = Vec::new();
    let mut k: usize = 0;
    while k < n
        invariant
            n <= plain@.len(),
            n <= marked@.len(),
            views(plain@) == ws_words(sentence@),
            views(marked@) == ws_words(diacritized@),
            k <= n,
            words@.len() == k,
            forall|q: int|
                0 <= q < k ==> niqud_word_of(
                    ws_words(sentence@)[q],
                    ws_words(diacritized@)[q],
                    #[trigger] words@[q],
                ),
        decreases n - k,
    {
        assert(views(plain@)[k as int] == plain@[k as int]@);
        assert(views(marked@)[k as int] == marked@[k as int]@);
        let w = niqud_word(
            string_from_chars(plain[k].as_slice()),
            string_from_chars(marked[k].as_slice()),
        );
        words.push(w);
        k = k + 1;
    }
    NiqudResult { words }
}

/// The result of a niqud CLI's output once parsed: its `(word, niqud)`
/// pairs with derived pronunciations, or an invalid-response error with
/// the parser's message.
pub fn cli_output_result(parsed: Result<Vec<(String, String)>, String>) -> (r: Result<
    NiqudResult,
    NiqudError,
>)
    ensures
        match parsed {
            Ok(pairs) => r matches Ok(res) && res.words@.len() == pairs@.len() && forall|k: int|
                0 <= k < pairs@.len() ==> niqud_word_of(
                    pairs@[k].0@,
                    pairs@[k].1@,
                    #[trigger] res.words@[k],
                ),
            Err(m) => r matches Err(e) && e matches NiqudError::InvalidResponse(msg) && msg@ == m@,
        },
{
    match parsed {
        Ok(pairs) => Ok(niqud_result_from_pairs(pairs)),
        Err(m) => Err(NiqudError::InvalidResponse(m)),
    }
}

/// A niqud client that runs an external CLI wrapper around the Phonikud
/// model once per sentence, passing the sentence as its only argument and
/// reading `{"words": [{"word", "niqud"}]}` from its output.
#[derive(Debug, Clone, PartialEq, Eq)]
pub struct PhonikudCliClient {
    /// Path or bare name of the CLI wrapper.
    pub binary_path: String,
}

impl PhonikudCliClient {
    /// The client that runs `trango-niqud-cli` from `PATH`.
    pub fn default() -> (c: Self)
        ensures
            c.binary_path@ == "trango-niqud-cli"@,
    {
        PhonikudCliClient { binary_path: String::from_str("trango-niqud-cli") }
    }

    /// The outcome of one run of the CLI wrapper, given how the run ended
    /// and, for a successful exit, its parsed output: a missing binary, a
    /// failure to start or a failed exit is a process failure explaining
    /// it (the last line of the error output for a failed exit); a
    /// successful exit gives [`cli_output_result`] of the parsed output.
    pub fn run_outcome(&self, run: ToolRun, parsed: Result<Vec<(String, String)>, String>) -> (r:
        Result<NiqudResult, NiqudError>)
        ensures
            match run {
                ToolRun::NotFound => r matches Err(e) && e matches NiqudError::ProcessFailed(m)
                    && m@ == "niqud CLI not found (looked for \""@ + self.binary_path@
                    + "\"). Install it and make sure it's on PATH, or set TRANGO_NIQUD_CLI_PATH to its location — see tools/niqud-cli/README.md."@,
                ToolRun::SpawnFailed(reason) => r matches Err(e) && e matches NiqudError::ProcessFailed(
                    m,
                ) && m@ == "failed to run niqud CLI: "@ + reason@,
                ToolRun::Exited { success, status, stderr } => if success {
                    match parsed {
                        Ok(pairs) => r matches Ok(res) && res.words@.len() == pairs@.len()
                            && forall|k: int|
                            0 <= k < pairs@.len() ==> niqud_word_of(
                                pairs@[k].0@,
                                pairs@[k].1@,
                                #[trigger] res.words@[k],
                            ),
                        Err(m) => r matches Err(e) && e matches NiqudError::InvalidResponse(msg)
                            && msg@ == m@,
                    }
                } else {
                    r matches Err(e) && e matches NiqudError::ProcessFailed(m) && m@
                        == "niqud CLI exited with "@ + status@ + ": "@ + last_line_or(
                        stderr@,
                        "no error output"@,
                    )
                },
            },
    {
        match run {
            ToolRun::NotFound => {
                let mut v: Vec<char> = Vec::new();
                append_str(&mut v, "niqud CLI not found (looked for \"");
                append_str(&mut v, self.binary_path.as_str());
                append_str(
                    &mut v,
                    "\"). Install it and make sure it's on PATH, or set TRANGO_NIQUD_CLI_PATH to its location — see tools/niqud-cli/README.md.",
                );
                Err(NiqudError::ProcessFailed(string_from_chars(v.as_slice())))
            },
            ToolRun::SpawnFailed(reason) => {
                let mut v: Vec<char> = Vec::new();
                append_str(&mut v, "failed to run niqud CLI: ");
                append_str(&mut v, reason.as_str());
                Err(NiqudError::ProcessFailed(string_from_chars(v.as_slice())))
            },
            ToolRun::Exited { success, status, stderr } => {
                if success {
                    cli_output_result(parsed)
                } else {
                    let mut v: Vec<char> = Vec::new();
                    append_str(&mut v, "niqud CLI exited with ");
                    append_str(&mut v, status.as_str());
                    append_str(&mut v, ": ");
                    let line = last_stderr_line(stderr.as_str());
                    append_str(&mut v, line.as_str());
                    Err(NiqudError::ProcessFailed(string_from_chars(v.as_slice())))
                }
            },
        }
    }
}

} // verus!
