//! Hebrew script handling: detecting Hebrew text, removing niqud
//! diacritics, and turning niqud (diacritized) text into a hyphenated Latin
//! pronunciation guide, one syllable per vowel (e.g. "שָׁכַב" becomes
//! "sha-khav"). A bare consonant becomes the onset of the next vowel's
//! syllable when one follows in the word, or the coda of the previous
//! syllable when it is word-final.
use vstd::prelude::*;
use crate::text::{
    append_chars, chars_of, flatten, flatten_chars, join_chars, join_with, string_from_chars, views,
};

verus! {

/// Dagesh point.
pub const DAGESH: u32 = 0x05BC;
/// Shin dot (the letter is shin, "sh").
pub const SHIN_DOT: u32 = 0x05C1;
/// Sin dot (the letter is sin, "s").
pub const SIN_DOT: u32 = 0x05C2;
/// Meteg, marking a pronounced (vocal) shva.
pub const VOCAL_SHVA: u32 = 0x05BD;
/// Ole, a stress mark; not used in the guide.
pub const STRESS: u32 = 0x05AB;
/// Morpheme boundary after a prefix letter.
pub const PREFIX_BOUNDARY: u32 = 0x7C;
/// The shva vowel point, silent unless marked vocal.
pub const SHVA: u32 = 0x05B0;
/// Holam, the "o" vowel point.
pub const HOLAM: u32 = 0x05B9;

/// `c` lies in the Hebrew Unicode block (letters, niqud, cantillation).
pub open spec fn in_hebrew_block(c: char) -> bool {
    0x0590 <= (c as u32) && (c as u32) <= 0x05FF
}

/// `c` is one of the 27 Hebrew base letters (alef through tav).
pub open spec fn is_hebrew_letter(c: char) -> bool {
    0x05D0 <= (c as u32) && (c as u32) <= 0x05EA
}

/// `c` is a niqud point, cantillation mark, or prefix-boundary marker, which
/// [`strip_niqud`] removes.
pub open spec fn is_niqud_mark(c: char) -> bool {
    (0x0590 <= (c as u32) && (c as u32) <= 0x05C7) || (c as u32) == PREFIX_BOUNDARY
}

/// Whether `text` contains at least one character of the Hebrew Unicode
/// block (U+0590 to U+05FF).
pub fn contains_hebrew(text: &str) -> (found: bool)
    ensures
        found == exists|i: int| 0 <= i < text@.len() && in_hebrew_block(#[trigger] text@[i]),
{
    let cs = chars_of(text);
    let mut i: usize = 0;
    while i < cs.len()
        invariant
            cs@ == text@,
            i <= cs@.len(),
            forall|j: int| 0 <= j < i ==> !in_hebrew_block(#[trigger] cs@[j]),
        decreases cs@.len() - i,
    {
        let u = cs[i] as u32;
        if 0x0590 <= u && u <= 0x05FF {
            return true;
        }
        i = i + 1;
    }
    false
}

/// Whether `c` is a Hebrew base letter.
pub fn hebrew_letter(c: char) -> (b: bool)
    ensures
        b == is_hebrew_letter(c),
{
    let u = c as u32;
    0x05D0 <= u && u <= 0x05EA
}

/// `text` without its niqud marks (see [`is_niqud_mark`]); everything
/// else stays, in order.
pub open spec fn stripped_text(text: Seq<char>) -> Seq<char> {
    text.filter(|c: char| !is_niqud_mark(c))
}

/// Text without niqud marks is left as it is.
proof fn lemma_strip_keeps_plain_text(text: Seq<char>)
    requires
        forall|i: int| 0 <= i < text.len() ==> !is_niqud_mark(#[trigger] text[i]),
    ensures
        stripped_text(text) == text,
    decreases text.len(),
{
    reveal(Seq::filter);
    if text.len() > 0 {
        let rest = text.drop_last();
        assert forall|i: int| 0 <= i < rest.len() implies !is_niqud_mark(#[trigger] rest[i]) by {
            assert(rest[i] == text[i]);
        }
        lemma_strip_keeps_plain_text(rest);
        assert(!is_niqud_mark(text[text.len() - 1]));
        assert(rest.push(text.last()) =~= text);
    }
}

/// Stripped text has no niqud mark left.
proof fn lemma_stripped_has_no_marks(text: Seq<char>)
    ensures
        forall|i: int|
            0 <= i < stripped_text(text).len() ==> !is_niqud_mark(#[trigger] stripped_text(text)[i]),
{
    assert forall|i: int| 0 <= i < stripped_text(text).len() implies !is_niqud_mark(
        #[trigger] stripped_text(text)[i],
    ) by {
        text.lemma_filter_pred(|c: char| !is_niqud_mark(c), i);
    }
}

/// Stripping leaves text without niqud marks as it is and leaves no niqud
/// mark behind, so stripping twice is stripping once.
pub proof fn lemma_strip_niqud_laws(text: Seq<char>)
    ensures
        (forall|i: int| 0 <= i < text.len() ==> !is_niqud_mark(#[trigger] text[i]))
            ==> stripped_text(text) == text,
        forall|i: int|
            0 <= i < stripped_text(text).len() ==> !is_niqud_mark(#[trigger] stripped_text(text)[i]),
        stripped_text(stripped_text(text)) == stripped_text(text),
{
    if forall|i: int| 0 <= i < text.len() ==> !is_niqud_mark(#[trigger] text[i]) {
        lemma_strip_keeps_plain_text(text);
    }
    lemma_stripped_has_no_marks(text);
    lemma_strip_keeps_plain_text(stripped_text(text));
}

/// `text` with every niqud point, cantillation mark and prefix-boundary
/// marker removed (U+0590 to U+05C7, and `|`); base letters and everything
/// else stay, in order.
pub fn strip_niqud(text: &str) -> (stripped: String)
    ensures
        stripped@ == stripped_text(text@),
{
    let cs = chars_of(text);
    let mut out: Vec<char> = Vec::new();
    let mut i: usize = 0;
    while i < cs.len()
        invariant
            cs@ == text@,
            i <= cs@.len(),
            out@ == cs@.take(i as int).filter(|c: char| !is_niqud_mark(c)),
        decreases cs@.len() - i,
    {
        let c = cs[i];
        let u = c as u32;
        proof {
            reveal(Seq::filter);
            assert(cs@.take(i + 1).drop_last() =~= cs@.take(i as int));
        }
        if !((0x0590 <= u && u <= 0x05C7) || u == 0x7C) {
            out.push(c);
        }
        i = i + 1;
    }
    assert(cs@.take(cs@.len() as int) =~= cs@);
    string_from_chars(out.as_slice())
}

/// One base Hebrew letter with the diacritics attached directly after it.
#[derive(Debug, Clone, Copy, PartialEq, Eq, Structural)]
pub struct Grapheme {
    /// The base letter.
    pub letter: char,
    /// A dagesh point follows the letter.
    pub has_dagesh: bool,
    /// The last vowel point attached to the letter, if any.
    pub vowel_point: Option<char>,
    /// The letter carries a sin dot (rather than a shin dot or none).
    pub is_sin: bool,
    /// The letter's shva is marked vocal.
    pub vocal_shva: bool,
}

/// A vowel point: U+05B0 to U+05BB, or qamats qatan U+05C7.
pub open spec fn is_vowel_point(c: char) -> bool {
    (0x05B0 <= (c as u32) && (c as u32) <= 0x05BB) || (c as u32) == 0x05C7
}

/// A diacritic that attaches to the preceding letter.
pub open spec fn is_attached_mark(c: char) -> bool {
    ||| (c as u32) == DAGESH
    ||| (c as u32) == SHIN_DOT
    ||| (c as u32) == SIN_DOT
    ||| (c as u32) == VOCAL_SHVA
    ||| (c as u32) == PREFIX_BOUNDARY
    ||| is_vowel_point(c)
}

/// The grapheme of a bare letter.
pub open spec fn bare_grapheme(c: char) -> Grapheme {
    Grapheme { letter: c, has_dagesh: false, vowel_point: None, is_sin: false, vocal_shva: false }
}

/// `g` after attaching diacritic `m`.
pub open spec fn attach_mark(g: Grapheme, m: char) -> Grapheme {
    if (m as u32) == DAGESH {
        Grapheme { has_dagesh: true, ..g }
    } else if (m as u32) == SHIN_DOT {
        Grapheme { is_sin: false, ..g }
    } else if (m as u32) == SIN_DOT {
        Grapheme { is_sin: true, ..g }
    } else if (m as u32) == VOCAL_SHVA {
        Grapheme { vocal_shva: true, ..g }
    } else if is_vowel_point(m) {
        Grapheme { vowel_point: Some(m), ..g }
    } else {
        g
    }
}

/// `g` after attaching each of `marks`, first to last.
pub open spec fn attach_marks(g: Grapheme, marks: Seq<char>) -> Grapheme
    decreases marks.len(),
{
    if marks.len() == 0 {
        g
    } else {
        attach_mark(attach_marks(g, marks.drop_last()), marks.last())
    }
}

/// The length of the run of attached diacritics starting at `start`.
pub open spec fn mark_run(cs: Seq<char>, start: int) -> nat
    decreases cs.len() - start,
{
    if 0 <= start < cs.len() && is_attached_mark(cs[start]) {
        1 + mark_run(cs, start + 1)
    } else {
        0
    }
}

/// A run of diacritics never extends past the end of `cs`.
pub proof fn lemma_mark_run_bound(cs: Seq<char>, start: int)
    requires
        0 <= start,
    ensures
        start + mark_run(cs, start) <= cs.len() || mark_run(cs, start) == 0,
    decreases cs.len() - start,
{
    if 0 <= start < cs.len() && is_attached_mark(cs[start]) {
        lemma_mark_run_bound(cs, start + 1);
    }
}

/// The graphemes of `cs` from position `i` on: each Hebrew letter with the
/// run of diacritics right after it; anything else is skipped.
pub open spec fn graphemes_from(cs: Seq<char>, i: int) -> Seq<Grapheme>
    decreases cs.len() - i,
{
    if i < 0 || i >= cs.len() {
        Seq::empty()
    } else if !is_hebrew_letter(cs[i]) {
        graphemes_from(cs, i + 1)
    } else {
        let k = mark_run(cs, i + 1);
        proof {
            lemma_mark_run_bound(cs, i + 1);
        }
        seq![attach_marks(bare_grapheme(cs[i]), cs.subrange(i + 1, i + 1 + k))]
            + graphemes_from(cs, i + 1 + k)
    }
}

/// The graphemes of niqud text, stress marks discarded.
pub open spec fn graphemes_of(niqud: Seq<char>) -> Seq<Grapheme> {
    graphemes_from(niqud.filter(|c: char| (c as u32) != STRESS), 0)
}


/// Whether `c` is a diacritic that attaches to the preceding letter.
fn attached_mark(c: char) -> (b: bool)
    ensures
        b == is_attached_mark(c),
{
    let u = c as u32;
    u == DAGESH || u == SHIN_DOT || u == SIN_DOT || u == VOCAL_SHVA || u == PREFIX_BOUNDARY
        || (0x05B0 <= u && u <= 0x05BB) || u == 0x05C7
}

/// `g` after attaching diacritic `m`.
fn attach(g: Grapheme, m: char) -> (r: Grapheme)
    ensures
        r == attach_mark(g, m),
{
    let u = m as u32;
    if u == DAGESH {
        Grapheme { has_dagesh: true, ..g }
    } else if u == SHIN_DOT {
        Grapheme { is_sin: false, ..g }
    } else if u == SIN_DOT {
        Grapheme { is_sin: true, ..g }
    } else if u == VOCAL_SHVA {
        Grapheme { vocal_shva: true, ..g }
    } else if (0x05B0 <= u && u <= 0x05BB) || u == 0x05C7 {
        Grapheme { vowel_point: Some(m), ..g }
    } else {
        g
    }
}

/// A run of attached diacritics ending where a non-diacritic (or the end)
/// follows has exactly the length [`mark_run`] gives.
proof fn lemma_mark_run_exact(cs: Seq<char>, s: int, e: int)
    requires
        0 <= s <= e <= cs.len(),
        forall|k: int| s <= k < e ==> is_attached_mark(#[trigger] cs[k]),
        e == cs.len() || !is_attached_mark(cs[e]),
    ensures
        mark_run(cs, s) == e - s,
    decreases e - s,
{
    if s < e {
        lemma_mark_run_exact(cs, s + 1, e);
    }
}

/// The characters of `niqud` with every stress mark removed.
fn without_stress(niqud: &str) -> (cs: Vec<char>)
    ensures
        cs@ == niqud@.filter(|c: char| (c as u32) != STRESS),
{
    let all = chars_of(niqud);
    let mut out: Vec<char> = Vec::new();
    let mut i: usize = 0;
    while i < all.len()
        invariant
            all@ == niqud@,
            i <= all@.len(),
            out@ == all@.take(i as int).filter(|c: char| (c as u32) != STRESS),
        decreases all@.len() - i,
    {
        let c = all[i];
        proof {
            reveal(Seq::filter);
            assert(all@.take(i + 1).drop_last() =~= all@.take(i as int));
        }
        if c as u32 != STRESS {
            out.push(c);
        }
        i = i + 1;
    }
    assert(all@.take(all@.len() as int) =~= all@);
    out
}

/// Whether `c` is the prefix-boundary marker.
pub open spec fn is_boundary(c: char) -> bool {
    (c as u32) == PREFIX_BOUNDARY
}

/// Attaching `x + y` is attaching `x`, then `y`.
proof fn lemma_attach_marks_append(g: Grapheme, x: Seq<char>, y: Seq<char>)
    ensures
        attach_marks(g, x + y) == attach_marks(attach_marks(g, x), y),
    decreases y.len(),
{
    if y.len() == 0 {
        assert(x + y =~= x);
    } else {
        assert((x + y).drop_last() =~= x + y.drop_last());
        lemma_attach_marks_append(g, x, y.drop_last());
    }
}

/// A prefix boundary among attached marks changes nothing.
proof fn lemma_attach_skips_boundary(g: Grapheme, x: Seq<char>, b: char, y: Seq<char>)
    requires
        is_boundary(b),
    ensures
        attach_marks(g, x + seq![b] + y) == attach_marks(g, x + y),
{
    lemma_attach_marks_append(g, x + seq![b], y);
    lemma_attach_marks_append(g, x, seq![b]);
    lemma_attach_marks_append(g, x, y);
    let h = attach_marks(g, x);
    assert(seq![b].drop_last() =~= Seq::<char>::empty());
    assert(seq![b].last() == b);
    assert(attach_marks(h, Seq::<char>::empty()) == h);
    assert(attach_marks(h, seq![b]) == attach_mark(h, b));
    assert(attach_mark(h, b) == h);
}

/// Past a removed position `j`, mark runs are the same in `cs` and in
/// `cs` without position `j`.
proof fn lemma_mark_run_after(cs: Seq<char>, j: int, s: int)
    requires
        0 <= j < cs.len(),
        j + 1 <= s,
    ensures
        mark_run(cs, s) == mark_run(cs.remove(j), s - 1),
    decreases cs.len() - s,
{
    let r = cs.remove(j);
    if s < cs.len() {
        assert(r[s - 1] == cs[s]);
        lemma_mark_run_after(cs, j, s + 1);
    }
}

/// Up to a removed prefix boundary at `j`, a mark run in `cs` is the run
/// without it, plus the boundary when the run reaches it.
proof fn lemma_mark_run_before(cs: Seq<char>, j: int, s: int)
    requires
        0 <= j < cs.len(),
        is_boundary(cs[j]),
        0 <= s <= j,
    ensures
        mark_run(cs, s) == mark_run(cs.remove(j), s) + (if s + mark_run(cs.remove(j), s) >= j {
            1int
        } else {
            0int
        }),
    decreases j - s,
{
    let r = cs.remove(j);
    lemma_mark_run_after(cs, j, j + 1);
    if s == j {
        assert(is_attached_mark(cs[j]));
        if j < r.len() {
            assert(r[j] == cs[j + 1]);
        }
    } else {
        assert(r[s] == cs[s]);
        lemma_mark_run_before(cs, j, s + 1);
    }
}

/// Past a removed position `j`, the graphemes are the same in `cs` and in
/// `cs` without position `j`.
proof fn lemma_graphemes_after(cs: Seq<char>, j: int, i: int)
    requires
        0 <= j < cs.len(),
        j + 1 <= i,
    ensures
        graphemes_from(cs, i) == graphemes_from(cs.remove(j), i - 1),
    decreases cs.len() - i,
{
    let r = cs.remove(j);
    if i < cs.len() {
        assert(r[i - 1] == cs[i]);
        if !is_hebrew_letter(cs[i]) {
            lemma_graphemes_after(cs, j, i + 1);
        } else {
            let k = mark_run(cs, i + 1);
            lemma_mark_run_after(cs, j, i + 1);
            lemma_mark_run_bound(cs, i + 1);
            assert(cs.subrange(i + 1, i + 1 + k) =~= r.subrange(i, i + k));
            lemma_graphemes_after(cs, j, i + 1 + k);
        }
    }
}

/// Removing a prefix boundary at `j` leaves the graphemes from any
/// position up to `j` unchanged.
proof fn lemma_graphemes_before(cs: Seq<char>, j: int, i: int)
    requires
        0 <= j < cs.len(),
        is_boundary(cs[j]),
        0 <= i <= j,
    ensures
        graphemes_from(cs, i) == graphemes_from(cs.remove(j), i),
    decreases j - i,
{
    let r = cs.remove(j);
    if i == j {
        lemma_graphemes_after(cs, j, j + 1);
    } else {
        assert(r[i] == cs[i]);
        if !is_hebrew_letter(cs[i]) {
            lemma_graphemes_before(cs, j, i + 1);
        } else {
            let k = mark_run(cs, i + 1);
            let k2 = mark_run(r, i + 1);
            lemma_mark_run_before(cs, j, i + 1);
            lemma_mark_run_bound(cs, i + 1);
            lemma_mark_run_bound(r, i + 1);
            let g = bare_grapheme(cs[i]);
            if i + 1 + k2 >= j {
                assert(k == k2 + 1);
                assert(cs.subrange(i + 1, i + 1 + k) =~= r.subrange(i + 1, j) + seq![cs[j]]
                    + r.subrange(j, i + 1 + k2));
                assert(r.subrange(i + 1, i + 1 + k2) =~= r.subrange(i + 1, j) + r.subrange(
                    j,
                    i + 1 + k2,
                ));
                lemma_attach_skips_boundary(
                    g,
                    r.subrange(i + 1, j),
                    cs[j],
                    r.subrange(j, i + 1 + k2),
                );
                lemma_graphemes_after(cs, j, i + 1 + k);
            } else {
                assert(k == k2);
                assert(cs.subrange(i + 1, i + 1 + k) =~= r.subrange(i + 1, i + 1 + k2));
                lemma_graphemes_before(cs, j, i + 1 + k);
            }
        }
    }
}

/// The graphemes of `cs` are those of `cs` without its prefix boundaries.
proof fn lemma_graphemes_without_boundaries(cs: Seq<char>)
    ensures
        graphemes_from(cs, 0) == graphemes_from(cs.filter(|c: char| !is_boundary(c)), 0),
    decreases cs.len(),
{
    let keep = |c: char| !is_boundary(c);
    if exists|j: int| 0 <= j < cs.len() && is_boundary(#[trigger] cs[j]) {
        let j = choose|j: int| 0 <= j < cs.len() && is_boundary(#[trigger] cs[j]);
        let r = cs.remove(j);
        lemma_graphemes_before(cs, j, 0);
        lemma_graphemes_without_boundaries(r);
        assert(cs =~= cs.subrange(0, j) + seq![cs[j]] + cs.subrange(j + 1, cs.len() as int));
        Seq::filter_distributes_over_add(cs.subrange(0, j) + seq![cs[j]], cs.subrange(j + 1, cs.len() as int), keep);
        Seq::filter_distributes_over_add(cs.subrange(0, j), seq![cs[j]], keep);
        Seq::filter_distributes_over_add(cs.subrange(0, j), cs.subrange(j + 1, cs.len() as int), keep);
        reveal(Seq::filter);
        assert(seq![cs[j]].drop_last() =~= Seq::<char>::empty());
        assert(!keep(cs[j]));
        assert(Seq::<char>::empty().filter(keep) =~= Seq::<char>::empty());
        assert(seq![cs[j]].filter(keep) =~= Seq::<char>::empty());
        assert(cs.subrange(0, j).filter(keep) + Seq::<char>::empty() =~= cs.subrange(0, j).filter(keep));
    } else {
        assert(cs.filter(keep) == cs) by {
            lemma_filter_keeps_all(cs, keep);
        }
    }
}

/// Filtering a sequence whose every element passes keeps it whole.
proof fn lemma_filter_keeps_all(s: Seq<char>, pred: spec_fn(char) -> bool)
    requires
        forall|i: int| 0 <= i < s.len() ==> pred(#[trigger] s[i]),
    ensures
        s.filter(pred) == s,
    decreases s.len(),
{
    reveal(Seq::filter);
    if s.len() > 0 {
        let rest = s.drop_last();
        assert forall|i: int| 0 <= i < rest.len() implies pred(#[trigger] rest[i]) by {
            assert(rest[i] == s[i]);
        }
        lemma_filter_keeps_all(rest, pred);
        assert(pred(s[s.len() - 1]));
        assert(rest.push(s.last()) =~= s);
    }
}

/// Stress marks and prefix boundaries do not change a pronunciation:
/// niqud text reads the same with its stress marks and then its prefix
/// boundaries removed.
pub proof fn lemma_pronunciation_ignores_stress_and_boundaries(niqud: Seq<char>)
    ensures
        pronunciation_of(
            niqud.filter(|c: char| (c as u32) != STRESS).filter(|c: char| !is_boundary(c)),
        ) == pronunciation_of(niqud),
{
    let no_stress = |c: char| (c as u32) != STRESS;
    let keep = |c: char| !is_boundary(c);
    let s = niqud.filter(no_stress);
    let t = s.filter(keep);
    s.filter_lemma(no_stress);
    t.filter_lemma(keep);
    assert forall|i: int| 0 <= i < t.len() implies no_stress(#[trigger] t[i]) by {
        s.filter_lemma(keep);
        assert(s.filter(keep).contains(t[i]));
        assert(s.contains(t[i])) by {
            t.filter_lemma(keep);
            lemma_filter_subset(s, keep, i);
        }
    }
    lemma_filter_keeps_all(t, no_stress);
    lemma_graphemes_without_boundaries(s);
    assert(graphemes_of(t) == graphemes_of(niqud));
}

/// Every element kept by a filter is in the filtered sequence.
proof fn lemma_filter_subset(s: Seq<char>, pred: spec_fn(char) -> bool, i: int)
    requires
        0 <= i < s.filter(pred).len(),
    ensures
        s.contains(s.filter(pred)[i]),
    decreases s.len(),
{
    reveal(Seq::filter);
    if s.len() > 0 {
        let rest = s.drop_last();
        if i < rest.filter(pred).len() {
            lemma_filter_subset(rest, pred, i);
            let k = choose|k: int| 0 <= k < rest.len() && rest[k] == rest.filter(pred)[i];
            assert(s[k] == rest[k]);
        } else {
            assert(s[s.len() - 1] == s.filter(pred)[i]);
        }
    }
}


/// A pointed letter alone reads as its consonant followed by its vowel:
/// for a letter `l` with a vowel point `v` after it, when the letter has a
/// consonant sound and the point a vowel, the pronunciation is that
/// consonant then that vowel (with [`lemma_consonant_table`] and
/// [`lemma_vowel_table`], e.g. dalet with qamats reads "da").
pub proof fn lemma_pointed_letter_reads(l: char, v: char)
    requires
        is_hebrew_letter(l),
        is_vowel_point(v),
    ensures
        ({
            let g = Grapheme {
                letter: l,
                has_dagesh: false,
                vowel_point: Some(v),
                is_sin: false,
                vocal_shva: false,
            };
            let (c, vowel) = consonant_and_vowel(g, true);
            c.len() > 0 && vowel is Some ==> pronunciation_of(seq![l, v]) == c + vowel->0
        }),
{
    let cs = seq![l, v];
    let g = Grapheme { letter: l, has_dagesh: false, vowel_point: Some(v), is_sin: false, vocal_shva: false };
    reveal(Seq::filter);
    let no_stress = |c: char| (c as u32) != STRESS;
    assert(cs.drop_last() =~= seq![l]);
    assert(seq![l].drop_last() =~= Seq::<char>::empty());
    assert forall|i: int| 0 <= i < cs.len() implies no_stress(#[trigger] cs[i]) by {
        if i == 0 {
            assert(cs[i] == l);
        } else {
            assert(cs[i] == v);
        }
    }
    lemma_filter_keeps_all(cs, no_stress);
    assert(mark_run(cs, 2) == 0);
    assert(is_attached_mark(cs[1]));
    assert(mark_run(cs, 1) == 1);
    assert(cs.subrange(1, 2) =~= seq![v]);
    assert(seq![v].drop_last() =~= Seq::<char>::empty());
    assert(attach_marks(bare_grapheme(l), seq![v]) == attach_mark(
        attach_marks(bare_grapheme(l), Seq::<char>::empty()),
        v,
    ));
    assert(attach_marks(bare_grapheme(l), seq![v]) == g);
    assert(graphemes_from(cs, 2) =~= Seq::<Grapheme>::empty());
    assert(graphemes_from(cs, 0) =~= seq![g]);
    assert(graphemes_of(cs) =~= seq![g]);
    let (c, vowel) = consonant_and_vowel(g, true);
    if c.len() > 0 && vowel is Some {
        let gs = seq![g];
        assert(last_index(1) == 0);
        let empty = SyllableState { syllables: Seq::empty(), pending: Seq::empty() };
        assert(syllables_after(gs, 0) == empty);
        assert(syllables_after(gs, 1) == syllable_step(empty, g, true));
        let st = syllable_step(empty, g, true);
        assert(seq![c].drop_last() =~= Seq::<Seq<char>>::empty());
        assert(st.syllables =~= seq![c + vowel->0]);
        assert(st.pending =~= Seq::<Seq<char>>::empty());
        assert(finish_syllables(st) == st.syllables);
        assert(join_with(seq![c + vowel->0], seq!['-']) == c + vowel->0);
    }
}

/// Splits niqud text into base-letter graphemes, discarding stress marks and
/// every character that is not a Hebrew letter or a diacritic attached to
/// one.
pub fn split_graphemes(niqud: &str) -> (gs: Vec<Grapheme>)
    ensures
        gs@ == graphemes_of(niqud@),
{
    let cs = without_stress(niqud);
    let mut gs: Vec<Grapheme> = Vec::new();
    let mut i: usize = 0;
    while i < cs.len()
        invariant
            i <= cs@.len(),
            graphemes_from(cs@, 0) == gs@ + graphemes_from(cs@, i as int),
        decreases cs@.len() - i,
    {
        let c = cs[i];
        if !hebrew_letter(c) {
            assert(graphemes_from(cs@, i as int) == graphemes_from(cs@, i + 1));
            i = i + 1;
        } else {
            let mut g = Grapheme {
                letter: c,
                has_dagesh: false,
                vowel_point: None,
                is_sin: false,
                vocal_shva: false,
            };
            let mut j: usize = i + 1;
            while j < cs.len() && attached_mark(cs[j])
                invariant
                    i + 1 <= j <= cs@.len(),
                    g == attach_marks(bare_grapheme(c), cs@.subrange(i + 1, j as int)),
                    forall|k: int| i + 1 <= k < j ==> is_attached_mark(#[trigger] cs@[k]),
                decreases cs@.len() - j,
            {
                proof {
                    let marks = cs@.subrange(i + 1, j + 1);
                    assert(marks.drop_last() =~= cs@.subrange(i + 1, j as int));
                }
                g = attach(g, cs[j]);
                j = j + 1;
            }
            proof {
                lemma_mark_run_exact(cs@, i + 1, j as int);
            }
            assert(graphemes_from(cs@, i as int) == seq![g] + graphemes_from(cs@, j as int));
            gs.push(g);
            assert(gs@ + graphemes_from(cs@, j as int) =~= (gs@.drop_last() + seq![g])
                + graphemes_from(cs@, j as int));
            i = j;
        }
    }
    assert(gs@ + graphemes_from(cs@, i as int) =~= gs@);
    gs
}


/// The Latin sound of a vowel point (shva excluded: its sound depends on
/// whether it is vocal).
pub open spec fn vowel_sound(point: char) -> Seq<char> {
    let u = point as u32;
    if u == 0x05B1 || u == 0x05B5 || u == 0x05B6 {
        seq!['e']
    } else if u == 0x05B2 || u == 0x05B7 || u == 0x05B8 {
        seq!['a']
    } else if u == 0x05B3 || u == 0x05B9 || u == 0x05BA || u == 0x05C7 {
        seq!['o']
    } else if u == 0x05B4 {
        seq!['i']
    } else if u == 0x05BB {
        seq!['u']
    } else {
        Seq::empty()
    }
}

/// The Latin vowel a grapheme carries, if any: a vocal shva is "e", a
/// silent one none, every other vowel point its sound.
pub open spec fn vowel_of(g: Grapheme) -> Option<Seq<char>> {
    match g.vowel_point {
        None => None,
        Some(p) => if (p as u32) == SHVA {
            if g.vocal_shva {
                Some(seq!['e'])
            } else {
                None
            }
        } else {
            Some(vowel_sound(p))
        },
    }
}

/// A begadkefat letter's sound with or without dagesh.
pub open spec fn dagesh_sound(g: Grapheme, with_dagesh: Seq<char>, without: Seq<char>) -> Seq<char> {
    if g.has_dagesh {
        with_dagesh
    } else {
        without
    }
}

/// The sound of a consonant that always sounds the same, by letter.
pub open spec fn plain_consonant(u: u32) -> Seq<char> {
    if u == 0x05D2 {
        seq!['g']
    } else if u == 0x05D3 {
        seq!['d']
    } else if u == 0x05D6 {
        seq!['z']
    } else if u == 0x05D7 {
        seq!['k', 'h']
    } else if u == 0x05D8 || u == 0x05EA {
        seq!['t']
    } else if u == 0x05DC {
        seq!['l']
    } else if u == 0x05DD || u == 0x05DE {
        seq!['m']
    } else if u == 0x05DF || u == 0x05E0 {
        seq!['n']
    } else if u == 0x05E1 {
        seq!['s']
    } else if u == 0x05E5 || u == 0x05E6 {
        seq!['t', 'z']
    } else if u == 0x05E7 {
        seq!['k']
    } else if u == 0x05E8 {
        seq!['r']
    } else {
        Seq::empty()
    }
}

/// A grapheme's consonant sound (empty when silent) and vowel sound. Alef
/// and ayin are silent; he is silent word-finally without a vowel; vav with
/// dagesh and no vowel is the vowel "u", vav with holam and no dagesh the
/// vowel "o"; yod without a vowel is a silent vowel carrier; bet, kaf and pe
/// depend on dagesh; shin and sin on the dot.
pub open spec fn consonant_and_vowel(g: Grapheme, is_last: bool) -> (Seq<char>, Option<Seq<char>>) {
    let u = g.letter as u32;
    if u == 0x05D0 || u == 0x05E2 {
        (Seq::empty(), vowel_of(g))
    } else if u == 0x05D4 {
        if is_last && g.vowel_point is None {
            (Seq::empty(), None)
        } else {
            (seq!['h'], vowel_of(g))
        }
    } else if u == 0x05D5 {
        if g.has_dagesh && g.vowel_point is None {
            (Seq::empty(), Some(seq!['u']))
        } else if !g.has_dagesh && (g.vowel_point matches Some(p) && (p as u32) == HOLAM) {
            (Seq::empty(), Some(seq!['o']))
        } else {
            (seq!['v'], vowel_of(g))
        }
    } else if u == 0x05D9 {
        match vowel_of(g) {
            Some(v) => (seq!['y'], Some(v)),
            None => (Seq::empty(), None),
        }
    } else if u == 0x05D1 {
        (dagesh_sound(g, seq!['b'], seq!['v']), vowel_of(g))
    } else if u == 0x05DA || u == 0x05DB {
        (dagesh_sound(g, seq!['k'], seq!['k', 'h']), vowel_of(g))
    } else if u == 0x05E3 || u == 0x05E4 {
        (dagesh_sound(g, seq!['p'], seq!['f']), vowel_of(g))
    } else if u == 0x05E9 {
        (if g.is_sin { seq!['s'] } else { seq!['s', 'h'] }, vowel_of(g))
    } else if (0x05D2 <= u && u <= 0x05EA) && plain_consonant(u).len() > 0 {
        (plain_consonant(u), vowel_of(g))
    } else {
        (Seq::empty(), None)
    }
}

/// Syllables built so far, and consonants still waiting for a vowel.
pub struct SyllableState {
    /// Finished syllables, in order.
    pub syllables: Seq<Seq<char>>,
    /// Consonants seen since the last vowel, in order.
    pub pending: Seq<Seq<char>>,
}

/// `parts` with `tail` appended to its last element.
pub open spec fn extend_last(parts: Seq<Seq<char>>, tail: Seq<char>) -> Seq<Seq<char>> {
    parts.update(parts.len() - 1, parts.last() + tail)
}

/// The syllable state after one more grapheme. A consonant joins the
/// pending ones; a vowel closes a syllable whose onset is the last pending
/// consonant, the earlier pending ones becoming the previous syllable's coda
/// (or leading the onset if there is no previous syllable).
pub open spec fn syllable_step(st: SyllableState, g: Grapheme, is_last: bool) -> SyllableState {
    let (c, v) = consonant_and_vowel(g, is_last);
    let pending = if c.len() > 0 { st.pending.push(c) } else { st.pending };
    match v {
        None => SyllableState { syllables: st.syllables, pending },
        Some(vowel) => {
            let onset = if pending.len() > 0 { pending.last() } else { Seq::empty() };
            let rest = if pending.len() > 0 { pending.drop_last() } else { pending };
            if rest.len() > 0 {
                if st.syllables.len() > 0 {
                    SyllableState {
                        syllables: extend_last(st.syllables, flatten(rest)).push(onset + vowel),
                        pending: Seq::empty(),
                    }
                } else {
                    SyllableState {
                        syllables: st.syllables.push(flatten(rest) + onset + vowel),
                        pending: Seq::empty(),
                    }
                }
            } else {
                SyllableState { syllables: st.syllables.push(onset + vowel), pending: Seq::empty() }
            }
        },
    }
}

/// Index of the last grapheme (0 when there are none).
pub open spec fn last_index(n: int) -> int {
    if n > 0 {
        n - 1
    } else {
        0
    }
}

/// The syllable state after the first `n` graphemes of `gs`.
pub open spec fn syllables_after(gs: Seq<Grapheme>, n: int) -> SyllableState
    decreases n,
{
    if n <= 0 {
        SyllableState { syllables: Seq::empty(), pending: Seq::empty() }
    } else {
        syllable_step(syllables_after(gs, n - 1), gs[n - 1], n - 1 == last_index(gs.len() as int))
    }
}

/// The finished syllables once the word ends: leftover consonants become
/// the last syllable's coda (or a syllable of their own if there is none).
pub open spec fn finish_syllables(st: SyllableState) -> Seq<Seq<char>> {
    if st.pending.len() > 0 {
        if st.syllables.len() > 0 {
            extend_last(st.syllables, flatten(st.pending))
        } else {
            st.syllables.push(flatten(st.pending))
        }
    } else {
        st.syllables
    }
}


/// The consonant table: each letter's Latin consonant, whatever marks it
/// carries (the vowel being the grapheme's own): gimel g, dalet d, zayin z,
/// het kh, tet t, lamed l, mem m, nun n, samekh s, tsadi tz, qof k, resh r,
/// tav t; bet b with dagesh and v without, kaf k and kh, pe p and f; shin
/// sh and sin s; alef and ayin silent; he h, silent at a word's end with no
/// vowel; vav v, but the vowel u with dagesh and no vowel point, and the
/// vowel o with holam and no dagesh; yod y before its vowel, silent with
/// none.
pub proof fn lemma_consonant_table(g: Grapheme, is_last: bool)
    ensures
        g.letter == '\u{05D2}' ==> consonant_and_vowel(g, is_last) == (seq!['g'], vowel_of(g)),
        g.letter == '\u{05D3}' ==> consonant_and_vowel(g, is_last) == (seq!['d'], vowel_of(g)),
        g.letter == '\u{05D6}' ==> consonant_and_vowel(g, is_last) == (seq!['z'], vowel_of(g)),
        g.letter == '\u{05D7}' ==> consonant_and_vowel(g, is_last) == (seq!['k', 'h'], vowel_of(g)),
        g.letter == '\u{05D8}' ==> consonant_and_vowel(g, is_last) == (seq!['t'], vowel_of(g)),
        g.letter == '\u{05DC}' ==> consonant_and_vowel(g, is_last) == (seq!['l'], vowel_of(g)),
        g.letter == '\u{05DD}' ==> consonant_and_vowel(g, is_last) == (seq!['m'], vowel_of(g)),
        g.letter == '\u{05DE}' ==> consonant_and_vowel(g, is_last) == (seq!['m'], vowel_of(g)),
        g.letter == '\u{05DF}' ==> consonant_and_vowel(g, is_last) == (seq!['n'], vowel_of(g)),
        g.letter == '\u{05E0}' ==> consonant_and_vowel(g, is_last) == (seq!['n'], vowel_of(g)),
        g.letter == '\u{05E1}' ==> consonant_and_vowel(g, is_last) == (seq!['s'], vowel_of(g)),
        g.letter == '\u{05E5}' ==> consonant_and_vowel(g, is_last) == (seq!['t', 'z'], vowel_of(g)),
        g.letter == '\u{05E6}' ==> consonant_and_vowel(g, is_last) == (seq!['t', 'z'], vowel_of(g)),
        g.letter == '\u{05E7}' ==> consonant_and_vowel(g, is_last) == (seq!['k'], vowel_of(g)),
        g.letter == '\u{05E8}' ==> consonant_and_vowel(g, is_last) == (seq!['r'], vowel_of(g)),
        g.letter == '\u{05EA}' ==> consonant_and_vowel(g, is_last) == (seq!['t'], vowel_of(g)),
        g.letter == '\u{05D1}' ==> consonant_and_vowel(g, is_last).0 == (if g.has_dagesh { seq!['b'] } else { seq!['v'] }),
        g.letter == '\u{05DA}' ==> consonant_and_vowel(g, is_last).0 == (if g.has_dagesh { seq!['k'] } else { seq!['k', 'h'] }),
        g.letter == '\u{05DB}' ==> consonant_and_vowel(g, is_last).0 == (if g.has_dagesh { seq!['k'] } else { seq!['k', 'h'] }),
        g.letter == '\u{05E3}' ==> consonant_and_vowel(g, is_last).0 == (if g.has_dagesh { seq!['p'] } else { seq!['f'] }),
        g.letter == '\u{05E4}' ==> consonant_and_vowel(g, is_last).0 == (if g.has_dagesh { seq!['p'] } else { seq!['f'] }),
        g.letter == '\u{05E9}' ==> consonant_and_vowel(g, is_last).0 == (if g.is_sin { seq!['s'] } else { seq!['s', 'h'] }),
        g.letter == '\u{05D0}' || g.letter == '\u{05E2}' ==> consonant_and_vowel(g, is_last) == (Seq::<char>::empty(), vowel_of(g)),
        g.letter == '\u{05D4}' ==> consonant_and_vowel(g, is_last) == (if is_last && g.vowel_point is None {
            (Seq::<char>::empty(), None::<Seq<char>>)
        } else {
            (seq!['h'], vowel_of(g))
        }),
        g.letter == '\u{05D5}' && g.has_dagesh && g.vowel_point is None ==> consonant_and_vowel(
            g,
            is_last,
        ) == (Seq::<char>::empty(), Some(seq!['u'])),
        g.letter == '\u{05D5}' && !g.has_dagesh && g.vowel_point == Some('\u{05B9}')
            ==> consonant_and_vowel(g, is_last) == (Seq::<char>::empty(), Some(seq!['o'])),
        g.letter == '\u{05D5}' && !(g.has_dagesh && g.vowel_point is None) && !(!g.has_dagesh
            && (g.vowel_point matches Some(p) && (p as u32) == 0x05B9)) ==> consonant_and_vowel(
            g,
            is_last,
        ) == (
            seq!['v'],
            vowel_of(g),
        ),
        g.letter == '\u{05D9}' ==> consonant_and_vowel(g, is_last) == match vowel_of(g) {
            Some(v) => (seq!['y'], Some(v)),
            None => (Seq::<char>::empty(), None::<Seq<char>>),
        },
{
}


/// The vowel table: hataf segol, tsere and segol read "e"; hataf patah,
/// patah and qamats "a"; hataf qamats, holam, holam haser and qamats qatan
/// "o"; hiriq "i"; qubuts "u"; a shva reads "e" when vocal and nothing
/// when silent; a letter without a vowel point has no vowel.
pub proof fn lemma_vowel_table(g: Grapheme)
    ensures
        g.vowel_point is None ==> vowel_of(g) is None,
        g.vowel_point == Some('\u{05B0}') ==> vowel_of(g) == (if g.vocal_shva {
            Some(seq!['e'])
        } else {
            None::<Seq<char>>
        }),
        g.vowel_point == Some('\u{05B1}') || g.vowel_point == Some('\u{05B5}') || g.vowel_point == Some(
            '\u{05B6}',
        ) ==> vowel_of(g) == Some(seq!['e']),
        g.vowel_point == Some('\u{05B2}') || g.vowel_point == Some('\u{05B7}') || g.vowel_point == Some(
            '\u{05B8}',
        ) ==> vowel_of(g) == Some(seq!['a']),
        g.vowel_point == Some('\u{05B3}') || g.vowel_point == Some('\u{05B9}') || g.vowel_point == Some(
            '\u{05BA}',
        ) || g.vowel_point == Some('\u{05C7}') ==> vowel_of(g) == Some(seq!['o']),
        g.vowel_point == Some('\u{05B4}') ==> vowel_of(g) == Some(seq!['i']),
        g.vowel_point == Some('\u{05BB}') ==> vowel_of(g) == Some(seq!['u']),
{
}

/// The hyphenated pronunciation guide of niqud text.
pub open spec fn pronunciation_of(niqud: Seq<char>) -> Seq<char> {
    let gs = graphemes_of(niqud);
    join_with(finish_syllables(syllables_after(gs, gs.len() as int)), seq!['-'])
}

/// The Latin sound of a vowel point.
fn vowel_sound_of(point: char) -> (v: Vec<char>)
    ensures
        v@ == vowel_sound(point),
{
    let u = point as u32;
    if u == 0x05B1 || u == 0x05B5 || u == 0x05B6 {
        vec!['e']
    } else if u == 0x05B2 || u == 0x05B7 || u == 0x05B8 {
        vec!['a']
    } else if u == 0x05B3 || u == 0x05B9 || u == 0x05BA || u == 0x05C7 {
        vec!['o']
    } else if u == 0x05B4 {
        vec!['i']
    } else if u == 0x05BB {
        vec!['u']
    } else {
        Vec::new()
    }
}

/// The Latin vowel a grapheme carries, if any.
fn resolve_vowel(g: &Grapheme) -> (v: Option<Vec<char>>)
    ensures
        match vowel_of(*g) {
            Some(s) => v matches Some(w) && w@ == s,
            None => v is None,
        },
{
    match g.vowel_point {
        None => None,
        Some(p) => {
            if p as u32 == SHVA {
                if g.vocal_shva {
                    Some(vec!['e'])
                } else {
                    None
                }
            } else {
                Some(vowel_sound_of(p))
            }
        },
    }
}

/// A begadkefat letter's sound with or without dagesh.
fn dagesh_pick(g: &Grapheme, with_dagesh: Vec<char>, without: Vec<char>) -> (v: Vec<char>)
    ensures
        v@ == dagesh_sound(*g, with_dagesh@, without@),
{
    if g.has_dagesh {
        with_dagesh
    } else {
        without
    }
}

/// The sound of a consonant that always sounds the same.
fn plain_consonant_of(u: u32) -> (v: Vec<char>)
    ensures
        v@ == plain_consonant(u),
{
    if u == 0x05D2 {
        vec!['g']
    } else if u == 0x05D3 {
        vec!['d']
    } else if u == 0x05D6 {
        vec!['z']
    } else if u == 0x05D7 {
        vec!['k', 'h']
    } else if u == 0x05D8 || u == 0x05EA {
        vec!['t']
    } else if u == 0x05DC {
        vec!['l']
    } else if u == 0x05DD || u == 0x05DE {
        vec!['m']
    } else if u == 0x05DF || u == 0x05E0 {
        vec!['n']
    } else if u == 0x05E1 {
        vec!['s']
    } else if u == 0x05E5 || u == 0x05E6 {
        vec!['t', 'z']
    } else if u == 0x05E7 {
        vec!['k']
    } else if u == 0x05E8 {
        vec!['r']
    } else {
        Vec::new()
    }
}

/// Both sides of `opt` agree: the same vowel, or none.
pub open spec fn same_vowel(v: Option<Vec<char>>, s: Option<Seq<char>>) -> bool {
    match s {
        Some(t) => v matches Some(w) && w@ =~= t,
        None => v is None,
    }
}

/// A grapheme's consonant sound (empty when silent) and vowel sound.
pub fn resolve_consonant_and_vowel(g: &Grapheme, is_last: bool) -> (r: (Vec<char>, Option<Vec<char>>))
    ensures
        r.0@ == consonant_and_vowel(*g, is_last).0,
        same_vowel(r.1, consonant_and_vowel(*g, is_last).1),
{
    let u = g.letter as u32;
    if u == 0x05D0 || u == 0x05E2 {
        (Vec::new(), resolve_vowel(g))
    } else if u == 0x05D4 {
        if is_last && g.vowel_point.is_none() {
            (Vec::new(), None)
        } else {
            (vec!['h'], resolve_vowel(g))
        }
    } else if u == 0x05D5 {
        let is_holam = match g.vowel_point {
            Some(p) => p as u32 == HOLAM,
            None => false,
        };
        if g.has_dagesh && g.vowel_point.is_none() {
            (Vec::new(), Some(vec!['u']))
        } else if !g.has_dagesh && is_holam {
            (Vec::new(), Some(vec!['o']))
        } else {
            (vec!['v'], resolve_vowel(g))
        }
    } else if u == 0x05D9 {
        match resolve_vowel(g) {
            Some(v) => (vec!['y'], Some(v)),
            None => (Vec::new(), None),
        }
    } else if u == 0x05D1 {
        (dagesh_pick(g, vec!['b'], vec!['v']), resolve_vowel(g))
    } else if u == 0x05DA || u == 0x05DB {
        (dagesh_pick(g, vec!['k'], vec!['k', 'h']), resolve_vowel(g))
    } else if u == 0x05E3 || u == 0x05E4 {
        (dagesh_pick(g, vec!['p'], vec!['f']), resolve_vowel(g))
    } else if u == 0x05E9 {
        (if g.is_sin { vec!['s'] } else { vec!['s', 'h'] }, resolve_vowel(g))
    } else {
        let c = plain_consonant_of(u);
        if 0x05D2 <= u && u <= 0x05EA && c.len() > 0 {
            (c, resolve_vowel(g))
        } else {
            (Vec::new(), None)
        }
    }
}

/// Appends `tail` to the last element of `parts`.
fn extend_last_part(parts: &mut Vec<Vec<char>>, tail: &[char])
    requires
        old(parts)@.len() > 0,
    ensures
        views(final(parts)@) == extend_last(views(old(parts)@), tail@),
{
    let mut last = parts.pop().unwrap();
    append_chars(&mut last, tail);
    parts.push(last);
    assert(views(parts@) =~= extend_last(views(old(parts)@), tail@));
}

/// Converts one word's niqud text into a hyphenated Latin pronunciation
/// guide, e.g. "שָׁכַב" to "sha-khav". Covers the standard niqud, dagesh,
/// shin/sin-dot and vocal-shva patterns, not the whole of Hebrew grammar.
pub fn niqud_to_pronunciation(niqud: &str) -> (pronunciation: String)
    ensures
        pronunciation@ == pronunciation_of(niqud@),
{
    let graphemes = split_graphemes(niqud);
    let ghost gs = graphemes@;
    let mut syllables: Vec<Vec<char>> = Vec::new();
    let mut pending: Vec<Vec<char>> = Vec::new();
    let last = if graphemes.len() > 0 { graphemes.len() - 1 } else { 0 };
    let mut index: usize = 0;
    while index < graphemes.len()
        invariant
            gs == graphemes@,
            last as int == last_index(gs.len() as int),
            index <= gs.len(),
            views(syllables@) == syllables_after(gs, index as int).syllables,
            views(pending@) == syllables_after(gs, index as int).pending,
        decreases gs.len() - index,
    {
        let ghost before = SyllableState { syllables: views(syllables@), pending: views(pending@) };
        let ghost cv = consonant_and_vowel(gs[index as int], index == last);
        let ghost next = syllable_step(before, gs[index as int], index == last);
        assert(syllables_after(gs, index + 1) == next);
        let (consonant, vowel) = resolve_consonant_and_vowel(&graphemes[index], index == last);
        if consonant.len() > 0 {
            pending.push(consonant);
        }
        let ghost pend = views(pending@);
        assert(pend =~= (if cv.0.len() > 0 { before.pending.push(cv.0) } else { before.pending }));
        match vowel {
            None => {
                assert(cv.1 is None);
            },
            Some(vowel) => {
                let ghost vw = cv.1->0;
                assert(vowel@ =~= vw);
                let mut onset: Vec<char> = match pending.pop() {
                    Some(c) => c,
                    None => Vec::new(),
                };
                let ghost onset_spec = if pend.len() > 0 { pend.last() } else { Seq::<char>::empty() };
                assert(onset@ =~= onset_spec);
                if pending.len() > 0 {
                    let coda = flatten_chars(&pending);
                    assert(views(pending@) =~= pend.drop_last());
                    if syllables.len() > 0 {
                        extend_last_part(&mut syllables, coda.as_slice());
                    } else {
                        let mut joined = coda;
                        append_chars(&mut joined, onset.as_slice());
                        onset = joined;
                    }
                }
                append_chars(&mut onset, vowel.as_slice());
                syllables.push(onset);
                pending = Vec::new();
            },
        }
        assert(views(syllables@) =~= syllables_after(gs, index + 1).syllables);
        assert(views(pending@) =~= syllables_after(gs, index + 1).pending);
        index = index + 1;
    }
    if pending.len() > 0 {
        let coda = flatten_chars(&pending);
        if syllables.len() > 0 {
            extend_last_part(&mut syllables, coda.as_slice());
        } else {
            syllables.push(coda);
        }
    }
    assert(views(syllables@) =~= finish_syllables(syllables_after(gs, gs.len() as int)));
    let sep = vec!['-'];
    assert(sep@ =~= seq!['-']);
    let joined = join_chars(&syllables, sep.as_slice());
    string_from_chars(joined.as_slice())
}

} // verus!
