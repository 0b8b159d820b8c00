//! Replaces a Hebrew sentence's model-guessed word pronunciations with ones
//! derived from niqud, degrading gracefully: a sentence that is not Hebrew,
//! or a niqud tool that fails, leaves the analysis as it was.
use vstd::prelude::*;
use crate::hebrew::{contains_hebrew, in_hebrew_block};
use crate::hebrew_word_merge::{merge_by_niqud_boundaries, merge_from};
use crate::niqud::{NiqudClient, NiqudError, NiqudResult, NiqudWord};
use crate::word_analysis::{entry_views, WordAnalysis, WordEntryView};

verus! {

/// Whether `sentence` contains a character of the Hebrew block.
pub open spec fn is_hebrew_sentence(sentence: Seq<char>) -> bool {
    exists|i: int| 0 <= i < sentence.len() && in_hebrew_block(#[trigger] sentence[i])
}

/// The analysis words after a niqud outcome: on success, the model's
/// entries merged onto niqud's word boundaries; on failure, unchanged.
pub open spec fn words_after_niqud(
    words: Seq<WordEntryView>,
    outcome: Result<NiqudResult, NiqudError>,
) -> Seq<WordEntryView> {
    match outcome {
        Ok(r) => merge_from(words, r.words@, 0, 0),
        Err(_) => words,
    }
}

/// Applies a niqud tool's outcome to `analysis`: a result replaces the
/// words by their merge onto niqud's word boundaries (which carries niqud's
/// pronunciations); an error keeps the model's own guesses.
pub fn apply_niqud_result(
    analysis: WordAnalysis,
    outcome: Result<NiqudResult, NiqudError>,
) -> (result: WordAnalysis)
    ensures
        entry_views(result.words@) == words_after_niqud(entry_views(analysis.words@), outcome),
{
    match outcome {
        Ok(niqud_result) => {
            let words = merge_by_niqud_boundaries(analysis.words, niqud_result.words.as_slice());
            WordAnalysis { words }
        },
        Err(_) => analysis,
    }
}

/// Replaces `analysis`'s per-word pronunciations with niqud-derived ones
/// for a Hebrew `sentence`. A sentence without Hebrew characters comes
/// back unchanged and the client is not asked; otherwise the client is
/// asked once about `sentence`, and its answer is applied as
/// [`apply_niqud_result`] says.
pub fn apply_niqud_pronunciation<N: NiqudClient>(
    niqud_client: &N,
    sentence: &str,
    analysis: WordAnalysis,
) -> (result: WordAnalysis)
    ensures
        !is_hebrew_sentence(sentence@) ==> result == analysis,
        is_hebrew_sentence(sentence@) ==> exists|outcome: Result<NiqudResult, NiqudError>|
            #[trigger] niqud_client.answers(sentence@, outcome) && entry_views(result.words@)
                == words_after_niqud(entry_views(analysis.words@), outcome),
{
    if !contains_hebrew(sentence) {
        return analysis;
    }
    let outcome = niqud_client.transliterate_sentence(sentence);
    let ghost o = outcome;
    let result = apply_niqud_result(analysis, outcome);
    assert(niqud_client.answers(sentence@, o));
    result
}

/// The source words of a niqud result, in order: what the language model
/// is asked to analyse word by word, so its words line up with niqud's.
pub fn niqud_source_words(result: &NiqudResult) -> (words: Vec<String>)
    ensures
        words@.len() == result.words@.len(),
        forall|k: int| 0 <= k < words@.len() ==> (#[trigger] words@[k])@ == result.words@[k].word@,
{
    let mut words: Vec<String> = Vec::new();
    let mut k: usize = 0;
    while k < result.words.len()
        invariant
            k <= result.words@.len(),
            words@.len() == k,
            forall|q: int| 0 <= q < k ==> (#[trigger] words@[q])@ == result.words@[q].word@,
        decreases result.words@.len() - k,
    {
        words.push(result.words[k].word.clone());
        k = k + 1;
    }
    words
}

} // verus!
