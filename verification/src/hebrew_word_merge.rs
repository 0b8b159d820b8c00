//! Reconciles a language model's word-by-word analysis of a Hebrew
//! sentence onto niqud's word boundaries. Niqud splits purely on
//! whitespace, so it never breaks a fused Hebrew word apart; the model
//! sometimes splits an attached prefix particle off into entries of its
//! own. Runs of consecutive model entries whose text concatenates to one
//! niqud word are merged back into one entry carrying niqud's
//! pronunciation.
use vstd::prelude::*;
use crate::niqud::NiqudWord;
use crate::text::{append_chars, chars_of, flatten, join_with, string_from_chars, views};
use crate::word_analysis::{
    copy_entry, entry_views, WordAnalysis, WordEntry, WordEntryView, WordPart, WordPartView,
};

verus! {

/// Largest number of consecutive model entries considered as one niqud
/// word: prefix particles stack at most two deep onto a base word, so four
/// leaves one entry of margin.
pub const MAX_MERGE_WINDOW: usize = 4;

/// Punctuation stripped from both ends of a word before comparing it.
pub open spec fn is_strip_punct(c: char) -> bool {
    ||| c == '.'
    ||| c == ','
    ||| c == '!'
    ||| c == '?'
    ||| c == ';'
    ||| c == ':'
    ||| c == '"'
    ||| c == '\''
    ||| c == '\u{05F4}'
    ||| c == '\u{05F3}'
    ||| c == '('
    ||| c == ')'
    ||| c == '['
    ||| c == ']'
}

/// `s` without its leading punctuation.
pub open spec fn trim_front(s: Seq<char>) -> Seq<char>
    decreases s.len(),
{
    if s.len() > 0 && is_strip_punct(s[0]) {
        trim_front(s.drop_first())
    } else {
        s
    }
}

/// `s` without its trailing punctuation.
pub open spec fn trim_back(s: Seq<char>) -> Seq<char>
    decreases s.len(),
{
    if s.len() > 0 && is_strip_punct(s.last()) {
        trim_back(s.drop_last())
    } else {
        s
    }
}

/// `s` with punctuation stripped from both ends.
pub open spec fn normalized(s: Seq<char>) -> Seq<char> {
    trim_back(trim_front(s))
}

/// The normalized words of `entries`, concatenated with no separator.
pub open spec fn concat_normalized(entries: Seq<WordEntryView>) -> Seq<char> {
    flatten(entries.map_values(|e: WordEntryView| normalized(e.word)))
}

/// The smallest window size `k` in `from..=max` for which the `k` entries
/// from `i` on concatenate (normalized) to `target`.
pub open spec fn first_window(
    entries: Seq<WordEntryView>,
    i: int,
    target: Seq<char>,
    from: int,
    max: int,
) -> Option<int>
    decreases max + 1 - from,
{
    if from > max || from < 1 {
        None
    } else if concat_normalized(entries.subrange(i, i + from)) == target {
        Some(from)
    } else {
        first_window(entries, i, target, from + 1, max)
    }
}

/// The window size limit at position `i`.
pub open spec fn max_window(len: int, i: int) -> int {
    if MAX_MERGE_WINDOW < len - i {
        MAX_MERGE_WINDOW as int
    } else {
        len - i
    }
}

/// The non-empty translations of `window`, joined with one space.
pub open spec fn joined_translations(window: Seq<WordEntryView>) -> Seq<char> {
    join_with(
        window.map_values(|e: WordEntryView| e.translation).filter(|t: Seq<char>| t.len() > 0),
        seq![' '],
    )
}

/// The one entry a matched window merges into: a single entry keeps its
/// own word, translation and parts and takes niqud's pronunciation; a
/// split word becomes niqud's (normalized) word with the window's joined
/// translations, niqud's pronunciation, and one part per consumed entry.
pub open spec fn merged_entry(window: Seq<WordEntryView>, nw: NiqudWord) -> WordEntryView {
    if window.len() == 1 {
        WordEntryView { pronunciation: nw.pronunciation@, ..window[0] }
    } else {
        WordEntryView {
            word: normalized(nw.word@),
            translation: joined_translations(window),
            pronunciation: nw.pronunciation@,
            parts: window.map_values(
                |e: WordEntryView| WordPartView { word: e.word, translation: e.translation },
            ),
        }
    }
}

/// The merge of `entries[i..]` onto `niqud[j..]`: at each step the smallest
/// matching window is merged into one entry and both sides advance; with no
/// window, a match one niqud word ahead skips that niqud word (the model
/// dropped it); otherwise the model entry passes through unchanged. Once
/// either side runs out, the remaining model entries pass through.
pub open spec fn merge_from(entries: Seq<WordEntryView>, niqud: Seq<NiqudWord>, i: int, j: int) -> Seq<
    WordEntryView,
>
    decreases (entries.len() - i) + (niqud.len() - j), niqud.len() - j,
{
    if i < 0 || j < 0 || i >= entries.len() || j >= niqud.len() {
        if 0 <= i <= entries.len() {
            entries.subrange(i, entries.len() as int)
        } else {
            Seq::empty()
        }
    } else {
        let target = normalized(niqud[j].word@);
        match first_window(entries, i, target, 1, max_window(entries.len() as int, i)) {
            Some(k) => {
                if 1 <= k <= entries.len() - i {
                    seq![merged_entry(entries.subrange(i, i + k), niqud[j])] + merge_from(
                        entries,
                        niqud,
                        i + k,
                        j + 1,
                    )
                } else {
                    Seq::empty()
                }
            },
            None => {
                if j + 1 < niqud.len() && normalized(entries[i].word) == normalized(
                    niqud[j + 1].word@,
                ) {
                    merge_from(entries, niqud, i, j + 1)
                } else {
                    seq![entries[i]] + merge_from(entries, niqud, i + 1, j)
                }
            },
        }
    }
}


/// Whether `c` is stripped from word ends before comparing.
fn strip_punct(c: char) -> (b: bool)
    ensures
        b == is_strip_punct(c),
{
    c == '.' || c == ',' || c == '!' || c == '?' || c == ';' || c == ':' || c == '"' || c == '\''
        || c == '\u{05F4}' || c == '\u{05F3}' || c == '(' || c == ')' || c == '[' || c == ']'
}

/// `word` with punctuation stripped from both ends.
fn normalize(word: &[char]) -> (n: Vec<char>)
    ensures
        n@ == normalized(word@),
{
    let len = word.len();
    let mut start: usize = 0;
    assert(word@.subrange(0, len as int) =~= word@);
    while start < len && strip_punct(word[start])
        invariant
            len == word@.len(),
            start <= len,
            trim_front(word@) == trim_front(word@.subrange(start as int, len as int)),
        decreases len - start,
    {
        assert(word@.subrange(start as int, len as int).drop_first() =~= word@.subrange(
            start + 1,
            len as int,
        ));
        assert(word@.subrange(start as int, len as int)[0] == word@[start as int]);
        start = start + 1;
    }
    assert(trim_front(word@.subrange(start as int, len as int)) == word@.subrange(
        start as int,
        len as int,
    ));
    let mut end: usize = len;
    while end > start && strip_punct(word[end - 1])
        invariant
            len == word@.len(),
            start <= end <= len,
            normalized(word@) == trim_back(word@.subrange(start as int, end as int)),
        decreases end - start,
    {
        assert(word@.subrange(start as int, end as int).drop_last() =~= word@.subrange(
            start as int,
            end - 1,
        ));
        end = end - 1;
    }
    let mut n: Vec<char> = Vec::new();
    let mut p: usize = start;
    while p < end
        invariant
            start <= p <= end <= len,
            len == word@.len(),
            n@ == word@.subrange(start as int, p as int),
        decreases end - p,
    {
        n.push(word[p]);
        assert(word@.subrange(start as int, p + 1) =~= word@.subrange(start as int, p as int).push(
            word@[p as int],
        ));
        p = p + 1;
    }
    n
}

/// Whether two character sequences are equal.
pub fn chars_equal(a: &[char], b: &[char]) -> (eq: bool)
    ensures
        eq == (a@ == b@),
{
    if a.len() != b.len() {
        return false;
    }
    let mut i: usize = 0;
    while i < a.len()
        invariant
            a@.len() == b@.len(),
            i <= a@.len(),
            forall|k: int| 0 <= k < i ==> a@[k] == b@[k],
        decreases a@.len() - i,
    {
        if a[i] != b[i] {
            return false;
        }
        i = i + 1;
    }
    assert(a@ =~= b@);
    true
}

/// The normalized words of `entries[i..i + k]`, concatenated.
fn concat_window(entries: &Vec<WordEntry>, i: usize, k: usize) -> (c: Vec<char>)
    requires
        i + k <= entries@.len(),
    ensures
        c@ == concat_normalized(entry_views(entries@).subrange(i as int, i + k)),
{
    let ghost ev = entry_views(entries@);
    let n = entries.len();
    let mut c: Vec<char> = Vec::new();
    let mut m: usize = 0;
    while m < k
        invariant
            n == entries@.len(),
            i + k <= entries@.len(),
            ev == entry_views(entries@),
            m <= k,
            c@ == concat_normalized(ev.subrange(i as int, i + m)),
        decreases k - m,
    {
        let w = chars_of(entries[i + m].word.as_str());
        let n = normalize(w.as_slice());
        proof {
            let before = ev.subrange(i as int, i + m);
            let after = ev.subrange(i as int, i + m + 1);
            assert(after.map_values(|e: WordEntryView| normalized(e.word)).drop_last()
                =~= before.map_values(|e: WordEntryView| normalized(e.word)));
        }
        append_chars(&mut c, n.as_slice());
        m = m + 1;
    }
    c
}

/// The window sizes searched from `from` on are all at least `from` and at
/// most `max`.
proof fn lemma_first_window_range(
    entries: Seq<WordEntryView>,
    i: int,
    target: Seq<char>,
    from: int,
    max: int,
)
    ensures
        first_window(entries, i, target, from, max) matches Some(k) ==> from <= k <= max && 1 <= k,
    decreases max + 1 - from,
{
    if from <= max && from >= 1 && concat_normalized(entries.subrange(i, i + from)) != target {
        lemma_first_window_range(entries, i, target, from + 1, max);
    }
}

/// The non-empty translations of `entries[i..i + k]`, joined with one space.
fn join_translations(entries: &Vec<WordEntry>, i: usize, k: usize) -> (t: String)
    requires
        i + k <= entries@.len(),
    ensures
        t@ == joined_translations(entry_views(entries@).subrange(i as int, i + k)),
{
    let ghost window = entry_views(entries@).subrange(i as int, i + k);
    let ghost all_ts = window.map_values(|e: WordEntryView| e.translation);
    let n = entries.len();
    let mut kept: Vec<Vec<char>> = Vec::new();
    let mut m: usize = 0;
    while m < k
        invariant
            n == entries@.len(),
            i + k <= entries@.len(),
            window == entry_views(entries@).subrange(i as int, i + k),
            all_ts == window.map_values(|e: WordEntryView| e.translation),
            m <= k,
            views(kept@) == all_ts.take(m as int).filter(|t: Seq<char>| t.len() > 0),
        decreases k - m,
    {
        let t = chars_of(entries[i + m].translation.as_str());
        proof {
            reveal(Seq::filter);
            assert(all_ts.take(m + 1).drop_last() =~= all_ts.take(m as int));
        }
        if t.len() > 0 {
            kept.push(t);
            assert(views(kept@) =~= all_ts.take(m + 1).filter(|t: Seq<char>| t.len() > 0));
        } else {
            assert(views(kept@) =~= all_ts.take(m + 1).filter(|t: Seq<char>| t.len() > 0));
        }
        m = m + 1;
    }
    assert(all_ts.take(k as int) =~= all_ts);
    let sep = vec![' '];
    assert(sep@ =~= seq![' ']);
    let joined = crate::text::join_chars(&kept, sep.as_slice());
    string_from_chars(joined.as_slice())
}

/// Merges the matched window `entries[i..i + k]` with its niqud word.
fn merge_window(entries: &Vec<WordEntry>, i: usize, k: usize, nw: &NiqudWord) -> (e: WordEntry)
    requires
        1 <= k,
        i + k <= entries@.len(),
    ensures
        e@ == merged_entry(entry_views(entries@).subrange(i as int, i + k), *nw),
{
    let ghost window = entry_views(entries@).subrange(i as int, i + k);
    if k == 1 {
        let mut e = copy_entry(&entries[i]);
        e.pronunciation = nw.pronunciation.clone();
        assert(e@ == merged_entry(window, *nw));
        e
    } else {
        let w = chars_of(nw.word.as_str());
        let word = string_from_chars(normalize(w.as_slice()).as_slice());
        let translation = join_translations(entries, i, k);
        let n = entries.len();
        let mut parts: Vec<WordPart> = Vec::new();
        let mut m: usize = 0;
        while m < k
            invariant
                n == entries@.len(),
                i + k <= entries@.len(),
                window == entry_views(entries@).subrange(i as int, i + k),
                m <= k,
                parts@.len() == m,
                forall|q: int|
                    0 <= q < m ==> (#[trigger] parts@[q])@ == (WordPartView {
                        word: window[q].word,
                        translation: window[q].translation,
                    }),
            decreases k - m,
        {
            parts.push(
                WordPart {
                    word: entries[i + m].word.clone(),
                    translation: entries[i + m].translation.clone(),
                },
            );
            m = m + 1;
        }
        let e = WordEntry { word, translation, pronunciation: nw.pronunciation.clone(), parts };
        assert(e@.parts =~= merged_entry(window, *nw).parts);
        e
    }
}

/// Reconciles `ollama_words` (a language model's sometimes inconsistent
/// word split) onto `niqud_words`' whitespace word boundaries, walking both
/// lists: the smallest run of consecutive model entries (up to
/// [`MAX_MERGE_WINDOW`]) whose punctuation-stripped text concatenates to
/// the current niqud word is merged into one entry with niqud's
/// pronunciation; with no such run, a model entry matching the next niqud
/// word skips the current niqud word (dropped by the model), and otherwise
/// the model entry passes through unchanged. Model entries left once niqud
/// runs out are appended unchanged.
pub fn merge_by_niqud_boundaries(ollama_words: Vec<WordEntry>, niqud_words: &[NiqudWord]) -> (merged:
    Vec<WordEntry>)
    ensures
        entry_views(merged@) == merge_from(entry_views(ollama_words@), niqud_words@, 0, 0),
{
    let ghost ev = entry_views(ollama_words@);
    let ghost nv = niqud_words@;
    let mut merged: Vec<WordEntry> = Vec::new();
    let mut i: usize = 0;
    let mut j: usize = 0;
    while i < ollama_words.len() && j < niqud_words.len()
        invariant
            ev == entry_views(ollama_words@),
            nv == niqud_words@,
            i <= ollama_words@.len(),
            j <= niqud_words@.len(),
            merge_from(ev, nv, 0, 0) == entry_views(merged@) + merge_from(ev, nv, i as int, j as int),
        decreases (ollama_words@.len() - i) + (niqud_words@.len() - j),
    {
        let target_raw = chars_of(niqud_words[j].word.as_str());
        let target = normalize(target_raw.as_slice());
        let max_window: usize = if MAX_MERGE_WINDOW < ollama_words.len() - i {
            MAX_MERGE_WINDOW
        } else {
            ollama_words.len() - i
        };
        let mut k: usize = 1;
        let mut matched: Option<usize> = None;
        while k <= max_window && matched.is_none()
            invariant
                i + max_window <= ollama_words@.len(),
                max_window <= MAX_MERGE_WINDOW,
                ev == entry_views(ollama_words@),
                1 <= k <= max_window + 1,
                target@ == normalized(nv[j as int].word@),
                nv == niqud_words@,
                j < niqud_words@.len(),
                matched is None ==> first_window(ev, i as int, target@, 1, max_window as int)
                    == first_window(ev, i as int, target@, k as int, max_window as int),
                matched matches Some(m) ==> first_window(ev, i as int, target@, 1, max_window as int)
                    == Some(m as int),
            decreases (max_window + 1 - k) * 2 + (if matched is None { 1int } else { 0int }),
        {
            let c = concat_window(&ollama_words, i, k);
            if chars_equal(c.as_slice(), target.as_slice()) {
                matched = Some(k);
            } else {
                k = k + 1;
            }
        }
        proof {
            lemma_first_window_range(ev, i as int, target@, 1, max_window as int);
        }
        let ghost rest = merge_from(ev, nv, i as int, j as int);
        match matched {
            Some(k) => {
                let e = merge_window(&ollama_words, i, k, &niqud_words[j]);
                merged.push(e);
                assert(rest == seq![merged_entry(ev.subrange(i as int, i + k), nv[j as int])]
                    + merge_from(ev, nv, i + k, j + 1));
                assert(entry_views(merged@) + merge_from(ev, nv, i + k, j + 1) =~= entry_views(
                    merged@.drop_last(),
                ) + rest);
                i = i + k;
                j = j + 1;
            },
            None => {
                let skip = if j + 1 < niqud_words.len() {
                    let a = chars_of(ollama_words[i].word.as_str());
                    let b = chars_of(niqud_words[j + 1].word.as_str());
                    let na = normalize(a.as_slice());
                    let nb = normalize(b.as_slice());
                    chars_equal(na.as_slice(), nb.as_slice())
                } else {
                    false
                };
                if skip {
                    j = j + 1;
                } else {
                    let e = copy_entry(&ollama_words[i]);
                    merged.push(e);
                    assert(entry_views(merged@) + merge_from(ev, nv, i + 1, j as int)
                        =~= entry_views(merged@.drop_last()) + rest);
                    i = i + 1;
                }
            },
        }
    }
    let ghost tail_start = i;
    assert(merge_from(ev, nv, i as int, j as int) == ev.subrange(i as int, ev.len() as int));
    while i < ollama_words.len()
        invariant
            ev == entry_views(ollama_words@),
            tail_start <= i <= ollama_words@.len(),
            merge_from(ev, nv, 0, 0) == entry_views(merged@) + ev.subrange(i as int, ev.len() as int),
        decreases ollama_words@.len() - i,
    {
        let e = copy_entry(&ollama_words[i]);
        merged.push(e);
        assert(entry_views(merged@) + ev.subrange(i + 1, ev.len() as int) =~= entry_views(
            merged@.drop_last(),
        ) + ev.subrange(i as int, ev.len() as int));
        i = i + 1;
    }
    assert(entry_views(merged@) + ev.subrange(i as int, ev.len() as int) =~= entry_views(merged@));
    merged
}


/// `entries` with each entry's pronunciation replaced by that of the niqud
/// word at the same position.
pub open spec fn with_niqud_pronunciations(entries: Seq<WordEntryView>, niqud: Seq<NiqudWord>) -> Seq<
    WordEntryView,
> {
    Seq::new(
        entries.len(),
        |p: int| WordEntryView { pronunciation: niqud[p].pronunciation@, ..entries[p] },
    )
}

/// Whether each model entry's word matches, punctuation aside, the niqud
/// word at the same position.
pub open spec fn aligned_word_for_word(entries: Seq<WordEntryView>, niqud: Seq<NiqudWord>) -> bool {
    &&& entries.len() == niqud.len()
    &&& forall|p: int|
        0 <= p < entries.len() ==> normalized(#[trigger] entries[p].word) == normalized(
            niqud[p].word@,
        )
}

proof fn lemma_single_window_concat(entries: Seq<WordEntryView>, i: int)
    requires
        0 <= i < entries.len(),
    ensures
        concat_normalized(entries.subrange(i, i + 1)) == normalized(entries[i].word),
{
    let parts = entries.subrange(i, i + 1).map_values(|e: WordEntryView| normalized(e.word));
    assert(parts.drop_last() =~= Seq::<Seq<char>>::empty());
    assert(flatten(parts.drop_last()) == Seq::<char>::empty());
    assert(flatten(parts) =~= normalized(entries[i].word));
}

proof fn lemma_aligned_from(entries: Seq<WordEntryView>, niqud: Seq<NiqudWord>, i: int)
    requires
        aligned_word_for_word(entries, niqud),
        0 <= i <= entries.len(),
    ensures
        merge_from(entries, niqud, i, i) == with_niqud_pronunciations(entries, niqud).subrange(
            i,
            entries.len() as int,
        ),
    decreases entries.len() - i,
{
    let all = with_niqud_pronunciations(entries, niqud);
    if i < entries.len() {
        lemma_single_window_concat(entries, i);
        assert(normalized(entries[i].word) == normalized(niqud[i].word@));
        lemma_aligned_from(entries, niqud, i + 1);
        let window = entries.subrange(i, i + 1);
        assert(merged_entry(window, niqud[i]) == all[i]);
        assert(merge_from(entries, niqud, i, i) == seq![all[i]] + merge_from(
            entries,
            niqud,
            i + 1,
            i + 1,
        ));
        assert(seq![all[i]] + all.subrange(i + 1, entries.len() as int) =~= all.subrange(
            i,
            entries.len() as int,
        ));
    } else {
        assert(all.subrange(i, entries.len() as int) =~= Seq::<WordEntryView>::empty());
        assert(entries.subrange(i, entries.len() as int) =~= Seq::<WordEntryView>::empty());
    }
}

/// When the model's words already line up one for one with niqud's words
/// (same count, each the same word once end punctuation is stripped), the
/// merge keeps every entry in place, changing only its pronunciation to
/// the niqud word's at the same position; a word that occurs twice gets
/// each occurrence's own pronunciation.
pub proof fn lemma_aligned_words_take_niqud_pronunciations(
    entries: Seq<WordEntryView>,
    niqud: Seq<NiqudWord>,
)
    requires
        aligned_word_for_word(entries, niqud),
    ensures
        merge_from(entries, niqud, 0, 0) == with_niqud_pronunciations(entries, niqud),
{
    lemma_aligned_from(entries, niqud, 0);
    assert(with_niqud_pronunciations(entries, niqud).subrange(0, entries.len() as int)
        =~= with_niqud_pronunciations(entries, niqud));
}

/// With no niqud words at all, the merge hands the model's entries back
/// unchanged.
pub proof fn lemma_no_niqud_words_keeps_entries(entries: Seq<WordEntryView>)
    ensures
        merge_from(entries, Seq::<NiqudWord>::empty(), 0, 0) == entries,
{
    assert(entries.subrange(0, entries.len() as int) =~= entries);
}

proof fn lemma_merge_from_len(entries: Seq<WordEntryView>, niqud: Seq<NiqudWord>, i: int, j: int)
    requires
        0 <= i <= entries.len(),
        0 <= j,
    ensures
        merge_from(entries, niqud, i, j).len() <= entries.len() - i,
    decreases (entries.len() - i) + (niqud.len() - j), niqud.len() - j,
{
    if i < entries.len() && j < niqud.len() {
        let target = normalized(niqud[j].word@);
        let max = max_window(entries.len() as int, i);
        lemma_first_window_range(entries, i, target, 1, max);
        match first_window(entries, i, target, 1, max) {
            Some(k) => {
                lemma_merge_from_len(entries, niqud, i + k, j + 1);
            },
            None => {
                if j + 1 < niqud.len() && normalized(entries[i].word) == normalized(
                    niqud[j + 1].word@,
                ) {
                    lemma_merge_from_len(entries, niqud, i, j + 1);
                } else {
                    lemma_merge_from_len(entries, niqud, i + 1, j);
                }
            },
        }
    }
}

/// The merge never yields more entries than the model gave: each entry it
/// returns stands for at least one of the model's entries.
pub proof fn lemma_merge_never_grows(entries: Seq<WordEntryView>, niqud: Seq<NiqudWord>)
    ensures
        merge_from(entries, niqud, 0, 0).len() <= entries.len(),
{
    lemma_merge_from_len(entries, niqud, 0, 0);
}

/// Stripping leading punctuation from `s` with `c` appended: `c` stays at
/// the end, unless nothing but punctuation came before it.
proof fn lemma_trim_front_push(s: Seq<char>, c: char)
    ensures
        trim_front(s.push(c)) == if trim_front(s).len() == 0 {
            trim_front(seq![c])
        } else {
            trim_front(s).push(c)
        },
    decreases s.len(),
{
    if s.len() == 0 {
        assert(s.push(c) =~= seq![c]);
    } else if is_strip_punct(s[0]) {
        assert(s.push(c).drop_first() =~= s.drop_first().push(c));
        lemma_trim_front_push(s.drop_first(), c);
    }
}

/// Punctuation at either end of a word does not count when words are
/// compared: for any word and any of . , ! ? ; : " ' ״ ׳ ( ) [ ], the word
/// with that mark added at its end, or at its start, normalizes to the
/// same as the word itself.
pub proof fn lemma_end_punctuation_ignored(w: Seq<char>, c: char)
    requires
        c == '.' || c == ',' || c == '!' || c == '?' || c == ';' || c == ':' || c == '"' || c == '\'' || c == '\u{05F4}' || c == '\u{05F3}' || c == '(' || c == ')' || c == '[' || c == ']',
    ensures
        normalized(w.push(c)) == normalized(w),
        normalized(seq![c] + w) == normalized(w),
{
    lemma_trim_front_push(w, c);
    assert(seq![c].drop_first() =~= Seq::<char>::empty());
    assert(trim_front(seq![c]) == trim_front(Seq::<char>::empty()));
    let t = trim_front(w);
    if t.len() > 0 {
        assert(t.push(c).drop_last() =~= t);
    }
    assert((seq![c] + w).drop_first() =~= w);
}

/// A word that begins and ends with a Hebrew letter is compared as it is:
/// nothing of it is stripped.
pub proof fn lemma_letter_bounded_word_kept(w: Seq<char>)
    requires
        w.len() > 0,
        0x05D0 <= (w[0] as u32) <= 0x05EA,
        0x05D0 <= (w.last() as u32) <= 0x05EA,
    ensures
        normalized(w) == w,
{
}

/// A model entry whose word is a niqud word without the punctuation mark
/// that niqud kept on it (niqud splits on spaces only) still lines up with
/// it: merged alone, the entry takes the niqud word's pronunciation.
pub proof fn lemma_punctuated_niqud_word_matches(e: WordEntryView, nw: NiqudWord, c: char)
    requires
        nw.word@ == e.word.push(c),
        c == '.' || c == ',' || c == '!' || c == '?' || c == ';' || c == ':' || c == '"' || c == '\'' || c == '\u{05F4}' || c == '\u{05F3}' || c == '(' || c == ')' || c == '[' || c == ']',
    ensures
        merge_from(seq![e], seq![nw], 0, 0) == seq![WordEntryView { pronunciation: nw.pronunciation@, ..e }],
{
    lemma_end_punctuation_ignored(e.word, c);
    lemma_aligned_words_take_niqud_pronunciations(seq![e], seq![nw]);
    assert(with_niqud_pronunciations(seq![e], seq![nw]) =~= seq![
        WordEntryView { pronunciation: nw.pronunciation@, ..e },
    ]);
}

} // verus!
