//! The word-by-word sentence analysis data model (each word's translation,
//! pronunciation guide and optional morpheme breakdown), and the rows the
//! analysis popup shows for it.
use vstd::prelude::*;
use crate::text::{append_chars, chars_of, join_with, string_from_chars, views};

verus! {

/// One morpheme of a word (e.g. an attached Hebrew prefix particle).
#[derive(Debug, Clone, PartialEq, Eq)]
pub struct WordPart {
    /// The morpheme as written.
    pub word: String,
    /// Its translation.
    pub translation: String,
}

/// The value of a [`WordPart`]: its word and translation.
pub struct WordPartView {
    /// The morpheme as written.
    pub word: Seq<char>,
    /// Its translation.
    pub translation: Seq<char>,
}

impl View for WordPart {
    type V = WordPartView;

    open spec fn view(&self) -> WordPartView {
        WordPartView { word: self.word@, translation: self.translation@ }
    }
}

/// One analyzed word of a sentence.
#[derive(Debug, Clone, PartialEq, Eq)]
pub struct WordEntry {
    /// The word as it appears in the sentence.
    pub word: String,
    /// Its translation.
    pub translation: String,
    /// A hyphenated pronunciation guide.
    pub pronunciation: String,
    /// Its morpheme breakdown; empty for a word that is a single morpheme.
    pub parts: Vec<WordPart>,
}

/// The value of a [`WordEntry`].
pub struct WordEntryView {
    /// The word as it appears in the sentence.
    pub word: Seq<char>,
    /// Its translation.
    pub translation: Seq<char>,
    /// Its pronunciation guide.
    pub pronunciation: Seq<char>,
    /// Its morpheme breakdown.
    pub parts: Seq<WordPartView>,
}

impl View for WordEntry {
    type V = WordEntryView;

    open spec fn view(&self) -> WordEntryView {
        WordEntryView {
            word: self.word@,
            translation: self.translation@,
            pronunciation: self.pronunciation@,
            parts: self.parts@.map_values(|p: WordPart| p@),
        }
    }
}

/// A whole sentence's analysis: its words, in sentence order.
#[derive(Debug, Clone, PartialEq, Eq)]
pub struct WordAnalysis {
    /// The analyzed words, in the order they appear in the sentence.
    pub words: Vec<WordEntry>,
}

/// The values of a sequence of entries.
pub open spec fn entry_views(entries: Seq<WordEntry>) -> Seq<WordEntryView> {
    entries.map_values(|e: WordEntry| e@)
}

/// A copy of `part` with the same value.
pub fn copy_part(part: &WordPart) -> (copy: WordPart)
    ensures
        copy@ == part@,
{
    WordPart { word: part.word.clone(), translation: part.translation.clone() }
}

/// A copy of `entry` with the same value.
pub fn copy_entry(entry: &WordEntry) -> (copy: WordEntry)
    ensures
        copy@ == entry@,
{
    let mut parts: Vec<WordPart> = Vec::new();
    let mut i: usize = 0;
    while i < entry.parts.len()
        invariant
            i <= entry.parts@.len(),
            parts@.len() == i,
            forall|k: int| 0 <= k < i ==> (#[trigger] parts@[k])@ == entry.parts@[k]@,
        decreases entry.parts@.len() - i,
    {
        let p = copy_part(&entry.parts[i]);
        parts.push(p);
        i = i + 1;
    }
    let copy = WordEntry {
        word: entry.word.clone(),
        translation: entry.translation.clone(),
        pronunciation: entry.pronunciation.clone(),
        parts,
    };
    assert(copy@.parts =~= entry@.parts);
    copy
}

/// One row of the word-analysis popup.
#[derive(Debug, Clone, PartialEq, Eq)]
pub struct WordAnalysisRow {
    /// The word.
    pub word: String,
    /// Its translation.
    pub translation: String,
    /// Its pronunciation guide.
    pub pronunciation: String,
    /// Its morpheme breakdown as one line, e.g. "ל = to · סרטים = movies".
    pub parts_label: String,
}

/// One morpheme rendered as "word = translation".
pub open spec fn part_label(p: WordPartView) -> Seq<char> {
    p.word + seq![' ', '=', ' '] + p.translation
}

/// A word's morpheme breakdown rendered as one line: each part as
/// "word = translation", joined with " · ".
pub open spec fn parts_label_of(parts: Seq<WordPartView>) -> Seq<char> {
    join_with(parts.map_values(|p: WordPartView| part_label(p)), seq![' ', '·', ' '])
}

/// A word's morpheme breakdown rendered as one line (empty when there are
/// no parts).
pub fn parts_label(parts: &Vec<WordPart>) -> (label: String)
    ensures
        label@ == parts_label_of(parts@.map_values(|p: WordPart| p@)),
{
    let mut rendered: Vec<Vec<char>> = Vec::new();
    let eq_sep = vec![' ', '=', ' '];
    assert(eq_sep@ =~= seq![' ', '=', ' ']);
    let mut i: usize = 0;
    while i < parts.len()
        invariant
            i <= parts@.len(),
            eq_sep@ == seq![' ', '=', ' '],
            rendered@.len() == i,
            forall|k: int| 0 <= k < i ==> (#[trigger] rendered@[k])@ == part_label(parts@[k]@),
        decreases parts@.len() - i,
    {
        let mut one = chars_of(parts[i].word.as_str());
        append_chars(&mut one, eq_sep.as_slice());
        let t = chars_of(parts[i].translation.as_str());
        append_chars(&mut one, t.as_slice());
        rendered.push(one);
        i = i + 1;
    }
    assert(views(rendered@) =~= parts@.map_values(|p: WordPart| p@).map_values(
        |p: WordPartView| part_label(p),
    ));
    let dot_sep = vec![' ', '·', ' '];
    assert(dot_sep@ =~= seq![' ', '·', ' ']);
    let joined = crate::text::join_chars(&rendered, dot_sep.as_slice());
    string_from_chars(joined.as_slice())
}

/// The popup row of one analyzed word.
pub open spec fn row_matches(row: WordAnalysisRow, entry: WordEntryView) -> bool {
    &&& row.word@ == entry.word
    &&& row.translation@ == entry.translation
    &&& row.pronunciation@ == entry.pronunciation
    &&& row.parts_label@ == parts_label_of(entry.parts)
}

/// The popup rows for `analysis`: one per word, in order.
pub fn analysis_rows(analysis: &WordAnalysis) -> (rows: Vec<WordAnalysisRow>)
    ensures
        rows@.len() == analysis.words@.len(),
        forall|k: int| 0 <= k < rows@.len() ==> row_matches(#[trigger] rows@[k], analysis.words@[k]@),
{
    let mut rows: Vec<WordAnalysisRow> = Vec::new();
    let mut i: usize = 0;
    while i < analysis.words.len()
        invariant
            i <= analysis.words@.len(),
            rows@.len() == i,
            forall|k: int| 0 <= k < i ==> row_matches(#[trigger] rows@[k], analysis.words@[k]@),
        decreases analysis.words@.len() - i,
    {
        let entry = &analysis.words[i];
        let row = WordAnalysisRow {
            word: entry.word.clone(),
            translation: entry.translation.clone(),
            pronunciation: entry.pronunciation.clone(),
            parts_label: parts_label(&entry.parts),
        };
        rows.push(row);
        i = i + 1;
    }
    rows
}

/// The state of the word-analysis popup.
#[derive(Debug, Clone, Copy, PartialEq, Eq, Structural)]
pub enum AnalysisStatus {
    /// The analysis is being fetched.
    Loading,
    /// The analysis is shown.
    Done,
    /// The analysis failed.
    Error,
}

/// What the word-analysis popup shows.
#[derive(Debug, Clone, PartialEq, Eq)]
pub struct AnalysisPopupView {
    /// Its state.
    pub status: AnalysisStatus,
    /// One row per analysed word.
    pub rows: Vec<WordAnalysisRow>,
    /// Why the analysis failed, or empty.
    pub error_message: String,
    /// Whether the popup is open.
    pub is_open: bool,
}

/// The popup opened while the analysis is fetched: loading, no rows, no
/// error.
pub fn open_popup_loading() -> (view: AnalysisPopupView)
    ensures
        view.status == AnalysisStatus::Loading,
        view.rows@.len() == 0,
        view.error_message@.len() == 0,
        view.is_open,
{
    AnalysisPopupView {
        status: AnalysisStatus::Loading,
        rows: Vec::new(),
        error_message: String::new(),
        is_open: true,
    }
}

/// The popup opened on an analysis already at hand: done, its rows, no
/// error.
pub fn open_popup_with_result(analysis: &WordAnalysis) -> (view: AnalysisPopupView)
    ensures
        view.status == AnalysisStatus::Done,
        view.rows@.len() == analysis.words@.len(),
        forall|k: int|
            0 <= k < view.rows@.len() ==> row_matches(#[trigger] view.rows@[k], analysis.words@[k]@),
        view.error_message@.len() == 0,
        view.is_open,
{
    AnalysisPopupView {
        status: AnalysisStatus::Done,
        rows: analysis_rows(analysis),
        error_message: String::new(),
        is_open: true,
    }
}

/// Applies a finished analysis (or why it failed) to the open popup: done
/// with the analysis's rows and no error, or an error with its message and
/// the rows left as they were.
pub fn apply_single_result(view: &mut AnalysisPopupView, result: &Result<WordAnalysis, String>)
    ensures
        final(view).is_open == old(view).is_open,
        match result {
            Ok(analysis) => {
                &&& final(view).status == AnalysisStatus::Done
                &&& final(view).rows@.len() == analysis.words@.len()
                &&& forall|k: int|
                    0 <= k < final(view).rows@.len() ==> row_matches(
                        #[trigger] final(view).rows@[k],
                        analysis.words@[k]@,
                    )
                &&& final(view).error_message@.len() == 0
            },
            Err(m) => {
                &&& final(view).status == AnalysisStatus::Error
                &&& final(view).error_message@ == m@
                &&& final(view).rows == old(view).rows
            },
        },
{
    match result {
        Ok(analysis) => {
            view.status = AnalysisStatus::Done;
            view.rows = analysis_rows(analysis);
            view.error_message = String::new();
        },
        Err(m) => {
            view.status = AnalysisStatus::Error;
            view.error_message = m.clone();
        },
    }
}

} // verus!
