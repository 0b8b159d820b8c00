//! Rebuilds the diacritized sentence from the niqud model's per-token
//! predictions: each Hebrew letter gets its predicted niqud marks (shin or
//! sin dot, vowel points, stress, vocal shva, prefix boundary); other
//! characters pass through unchanged. The predictions themselves (the
//! highest-scoring class of each output) are taken from the model's scores
//! by the caller.
use vstd::prelude::*;
use crate::hebrew::{is_hebrew_letter, is_niqud_mark, stripped_text};
use crate::text::{chars_of, string_from_chars};
use crate::tokenizer::{tokens_of, Token};

verus! {

/// The number of niqud classes the model chooses between.
pub const NIKUD_CLASS_COUNT: usize = 29;

/// The class that marks a mater lectionis (a vowel letter with no point of
/// its own).
pub const MAT_LECT_CLASS: usize = 1;

/// One token's predictions: its niqud class, its shin/sin class, and
/// whether it carries stress, a vocal shva and a prefix boundary.
#[derive(Debug, Clone, Copy, PartialEq, Eq)]
pub struct TokenPrediction {
    /// The niqud class (below [`NIKUD_CLASS_COUNT`]).
    pub nikud_class: usize,
    /// The shin-dot (0) or sin-dot (1) class.
    pub shin_class: usize,
    /// Whether the letter is stressed.
    pub stress: bool,
    /// Whether the letter's shva is vocal.
    pub vocal_shva: bool,
    /// Whether a prefix boundary follows the letter.
    pub prefix: bool,
}

/// The marks of niqud class `class`.
pub open spec fn nikud_marks(class: nat) -> Seq<char> {
    if class == 0 || class == 1 {
        Seq::empty()
    } else if class == 2 {
        seq!['\u{05BC}']
    } else if 3 <= class <= 14 {
        seq![(0x05B0 + (class - 3)) as char]
    } else if 15 <= class <= 26 {
        seq!['\u{05BC}', (0x05B0 + (class - 15)) as char]
    } else if class == 27 {
        seq!['\u{05C7}']
    } else {
        seq!['\u{05BC}', '\u{05C7}']
    }
}

/// Whether `c` is one of the letters that may stand as a mater lectionis
/// (alef, vav, yod).
pub open spec fn is_mater_letter(c: char) -> bool {
    c == '\u{05D0}' || c == '\u{05D5}' || c == '\u{05D9}'
}

/// The shin letter.
pub open spec fn shin_letter() -> char {
    '\u{05E9}'
}

/// What one token adds to the output: nothing for `[CLS]`/`[SEP]` or a
/// position outside the text; a non-Hebrew character as it is; a mater
/// lectionis as the bare letter; otherwise the letter, then its shin/sin
/// dot (for shin), its niqud (none for a mater-lectionis class on another
/// letter), then stress, vocal shva and prefix marks as predicted.
pub open spec fn token_output(text: Seq<char>, token: Token, p: TokenPrediction) -> Seq<char> {
    match token.char_index {
        None => Seq::empty(),
        Some(i) => if i >= text.len() {
            Seq::empty()
        } else {
            let letter = text[i as int];
            if !is_hebrew_letter(letter) {
                seq![letter]
            } else if p.nikud_class == MAT_LECT_CLASS && is_mater_letter(letter) {
                seq![letter]
            } else {
                let shin = if letter == shin_letter() {
                    if p.shin_class == 0 {
                        seq!['\u{05C1}']
                    } else {
                        seq!['\u{05C2}']
                    }
                } else {
                    Seq::empty()
                };
                let nikud = nikud_marks(p.nikud_class as nat);
                seq![letter] + shin + nikud + (if p.stress {
                    seq!['\u{05AB}']
                } else {
                    Seq::empty()
                }) + (if p.vocal_shva {
                    seq!['\u{05BD}']
                } else {
                    Seq::empty()
                }) + (if p.prefix {
                    seq!['|']
                } else {
                    Seq::empty()
                })
            }
        },
    }
}

/// The diacritized text for `text` from the first `n` tokens and their
/// predictions.
pub open spec fn decoded(text: Seq<char>, tokens: Seq<Token>, preds: Seq<TokenPrediction>, n: nat) -> Seq<
    char,
>
    decreases n,
{
    if n == 0 {
        Seq::empty()
    } else {
        decoded(text, tokens, preds, (n - 1) as nat) + token_output(
            text,
            tokens[n - 1],
            preds[n - 1],
        )
    }
}

/// Whether `preds` are valid predictions for `tokens`: one per token,
/// each class in range.
pub open spec fn predictions_valid(tokens: Seq<Token>, preds: Seq<TokenPrediction>) -> bool {
    &&& preds.len() == tokens.len()
    &&& forall|k: int|
        0 <= k < preds.len() ==> (#[trigger] preds[k]).nikud_class < NIKUD_CLASS_COUNT
            && preds[k].shin_class < 2
}

/// Appends the marks of niqud class `class`.
fn push_nikud_marks(out: &mut Vec<char>, class: usize)
    requires
        class < NIKUD_CLASS_COUNT,
    ensures
        final(out)@ == old(out)@ + nikud_marks(class as nat),
{
    let ghost before = out@;
    if class == 0 || class == 1 {
    } else if class == 2 {
        out.push('\u{05BC}');
    } else if class <= 14 {
        let point = char_from_code(0x05B0 + (class as u32 - 3));
        out.push(point);
    } else if class <= 26 {
        out.push('\u{05BC}');
        let point = char_from_code(0x05B0 + (class as u32 - 15));
        out.push(point);
    } else if class == 27 {
        out.push('\u{05C7}');
    } else {
        out.push('\u{05BC}');
        out.push('\u{05C7}');
    }
    assert(out@ =~= before + nikud_marks(class as nat));
}

/// The character with code `code`, a niqud point.
fn char_from_code(code: u32) -> (c: char)
    requires
        0x05B0 <= code <= 0x05BB,
    ensures
        c == code as char,
{
    let b = (code - 0x05B0) as u8;
    match b {
        0 => '\u{05B0}',
        1 => '\u{05B1}',
        2 => '\u{05B2}',
        3 => '\u{05B3}',
        4 => '\u{05B4}',
        5 => '\u{05B5}',
        6 => '\u{05B6}',
        7 => '\u{05B7}',
        8 => '\u{05B8}',
        9 => '\u{05B9}',
        10 => '\u{05BA}',
        _ => '\u{05BB}',
    }
}

/// The marks after a pointed letter: shin/sin dot, niqud, stress, vocal
/// shva, prefix boundary.
pub open spec fn letter_marks(letter: char, p: TokenPrediction) -> Seq<char> {
    let shin = if letter == shin_letter() {
        if p.shin_class == 0 {
            seq!['\u{05C1}']
        } else {
            seq!['\u{05C2}']
        }
    } else {
        Seq::empty()
    };
    shin + nikud_marks(p.nikud_class as nat) + (if p.stress {
        seq!['\u{05AB}']
    } else {
        Seq::empty()
    }) + (if p.vocal_shva {
        seq!['\u{05BD}']
    } else {
        Seq::empty()
    }) + (if p.prefix {
        seq!['|']
    } else {
        Seq::empty()
    })
}

proof fn lemma_token_output_marks(text: Seq<char>, token: Token, p: TokenPrediction, i: usize)
    requires
        token.char_index == Some(i),
        i < text.len(),
        is_hebrew_letter(text[i as int]),
        !(p.nikud_class == MAT_LECT_CLASS && is_mater_letter(text[i as int])),
    ensures
        token_output(text, token, p) =~= seq![text[i as int]] + letter_marks(text[i as int], p),
{
}

/// Appends the marks after a pointed letter.
fn push_letter_marks(out: &mut Vec<char>, letter: char, p: TokenPrediction)
    requires
        p.nikud_class < NIKUD_CLASS_COUNT,
    ensures
        final(out)@ == old(out)@ + letter_marks(letter, p),
{
    let ghost before = out@;
    if letter == '\u{05E9}' {
        if p.shin_class == 0 {
            out.push('\u{05C1}');
        } else {
            out.push('\u{05C2}');
        }
    }
    let ghost after_shin = out@;
    push_nikud_marks(out, p.nikud_class);
    let ghost after_nikud = out@;
    if p.stress {
        out.push('\u{05AB}');
    }
    let ghost after_stress = out@;
    if p.vocal_shva {
        out.push('\u{05BD}');
    }
    let ghost after_shva = out@;
    if p.prefix {
        out.push('|');
    }
    assert(out@ =~= before + letter_marks(letter, p));
}

/// Appends one token's output (see [`token_output`]).
fn push_token_output(out: &mut Vec<char>, text: &Vec<char>, token: Token, p: TokenPrediction)
    requires
        p.nikud_class < NIKUD_CLASS_COUNT,
    ensures
        final(out)@ == old(out)@ + token_output(text@, token, p),
{
    let ghost before = out@;
    match token.char_index {
        None => {
            assert(out@ =~= before + token_output(text@, token, p));
        },
        Some(i) => {
            if i < text.len() {
                let letter = text[i];
                let u = letter as u32;
                if !(0x05D0 <= u && u <= 0x05EA) {
                    out.push(letter);
                    assert(out@ =~= before + token_output(text@, token, p));
                } else if p.nikud_class == MAT_LECT_CLASS && (letter == '\u{05D0}' || letter
                    == '\u{05D5}' || letter == '\u{05D9}') {
                    out.push(letter);
                    assert(out@ =~= before + token_output(text@, token, p));
                } else {
                    proof {
                        lemma_token_output_marks(text@, token, p, i);
                    }
                    out.push(letter);
                    push_letter_marks(out, letter, p);
                    assert(out@ =~= before + token_output(text@, token, p));
                }
            } else {
                assert(out@ =~= before + token_output(text@, token, p));
            }
        },
    }
}

/// The diacritized form of `niqud_stripped` from its tokens and the
/// model's per-token predictions (see [`token_output`]), token by token.
pub fn decode_predictions(
    niqud_stripped: &str,
    tokens: &[Token],
    predictions: &[TokenPrediction],
) -> (out: String)
    requires
        predictions_valid(tokens@, predictions@),
    ensures
        out@ == decoded(niqud_stripped@, tokens@, predictions@, tokens@.len() as nat),
{
    let text = chars_of(niqud_stripped);
    let mut out: Vec<char> = Vec::new();
    let mut row: usize = 0;
    while row < tokens.len()
        invariant
            row <= tokens@.len(),
            predictions_valid(tokens@, predictions@),
            text@ == niqud_stripped@,
            out@ == decoded(niqud_stripped@, tokens@, predictions@, row as nat),
        decreases tokens@.len() - row,
    {
        let p = predictions[row];
        assert(p.nikud_class < NIKUD_CLASS_COUNT);
        push_token_output(&mut out, &text, tokens[row], p);
        row = row + 1;
    }
    string_from_chars(out.as_slice())
}

/// Text made of niqud marks only strips to nothing.
proof fn lemma_strip_only_marks(s: Seq<char>)
    requires
        forall|i: int| 0 <= i < s.len() ==> is_niqud_mark(#[trigger] s[i]),
    ensures
        stripped_text(s) == Seq::<char>::empty(),
    decreases s.len(),
{
    reveal(Seq::filter);
    if s.len() > 0 {
        let rest = s.drop_last();
        assert forall|i: int| 0 <= i < rest.len() implies is_niqud_mark(#[trigger] rest[i]) by {
            assert(rest[i] == s[i]);
        }
        lemma_strip_only_marks(rest);
        assert(is_niqud_mark(s[s.len() - 1]));
    }
}

/// The marks after a pointed letter are all niqud marks.
proof fn lemma_letter_marks_are_marks(letter: char, p: TokenPrediction)
    requires
        p.nikud_class < NIKUD_CLASS_COUNT,
    ensures
        forall|i: int|
            0 <= i < letter_marks(letter, p).len() ==> is_niqud_mark(
                #[trigger] letter_marks(letter, p)[i],
            ),
{
    let c = p.nikud_class as nat;
    let n = nikud_marks(c);
    assert forall|i: int| 0 <= i < n.len() implies is_niqud_mark(#[trigger] n[i]) by {
        if 3 <= c <= 14 {
            assert(n[0] == (0x05B0 + (c - 3)) as char);
        } else if 15 <= c <= 26 {
            assert(i == 0 || n[1] == (0x05B0 + (c - 15)) as char);
        }
    }
}

/// One token's output, stripped of niqud, is the character it stands for
/// (nothing for `[CLS]`/`[SEP]`), when the text holds no niqud marks.
proof fn lemma_strip_token_output(text: Seq<char>, token: Token, p: TokenPrediction)
    requires
        p.nikud_class < NIKUD_CLASS_COUNT,
        forall|i: int| 0 <= i < text.len() ==> !is_niqud_mark(#[trigger] text[i]),
    ensures
        stripped_text(token_output(text, token, p)) == match token.char_index {
            Some(i) => if i < text.len() {
                seq![text[i as int]]
            } else {
                Seq::<char>::empty()
            },
            None => Seq::<char>::empty(),
        },
{
    reveal(Seq::filter);
    match token.char_index {
        None => {},
        Some(i) => if i < text.len() {
            let letter = text[i as int];
            assert(!is_niqud_mark(letter));
            assert(seq![letter].drop_last() =~= Seq::<char>::empty());
            assert(stripped_text(seq![letter]) == seq![letter]);
            if is_hebrew_letter(letter) && !(p.nikud_class == MAT_LECT_CLASS && is_mater_letter(
                letter,
            )) {
                lemma_token_output_marks(text, token, p, i);
                lemma_letter_marks_are_marks(letter, p);
                lemma_strip_only_marks(letter_marks(letter, p));
                Seq::filter_distributes_over_add(
                    seq![letter],
                    letter_marks(letter, p),
                    |c: char| !is_niqud_mark(c),
                );
                assert(seq![letter] + Seq::<char>::empty() =~= seq![letter]);
            }
        },
    }
}

/// Where each token of [`tokens_of`] points.
proof fn lemma_tokens_of_shape(ids: Map<u32, u32>, text: Seq<char>, k: int)
    requires
        0 <= k < text.len() + 2,
        text.len() <= usize::MAX,
    ensures
        tokens_of(ids, text).len() == text.len() + 2,
        k == 0 || k == text.len() + 1 ==> tokens_of(ids, text)[k].char_index is None,
        1 <= k <= text.len() ==> tokens_of(ids, text)[k].char_index == Some((k - 1) as usize),
{
}

/// The stripped output of the first `n` tokens of a mark-free text: the
/// characters those tokens stand for.
#[verifier::rlimit(40)]
proof fn lemma_strip_decoded_prefix(
    ids: Map<u32, u32>,
    text: Seq<char>,
    preds: Seq<TokenPrediction>,
    n: nat,
)
    requires
        forall|i: int| 0 <= i < text.len() ==> !is_niqud_mark(#[trigger] text[i]),
        predictions_valid(tokens_of(ids, text), preds),
        n <= text.len() + 2,
        text.len() <= usize::MAX,
    ensures
        stripped_text(decoded(text, tokens_of(ids, text), preds, n)) == text.take(
            if n <= 1 {
                0
            } else if n - 1 <= text.len() {
                n - 1
            } else {
                text.len() as int
            },
        ),
    decreases n,
{
    let toks = tokens_of(ids, text);
    if n == 0 {
        reveal(Seq::filter);
        assert(text.take(0) =~= Seq::<char>::empty());
        assert(decoded(text, toks, preds, 0) == Seq::<char>::empty());
        assert(stripped_text(Seq::<char>::empty()) =~= Seq::<char>::empty());
    } else {
        let k = (n - 1) as int;
        lemma_strip_decoded_prefix(ids, text, preds, k as nat);
        lemma_tokens_of_shape(ids, text, k);
        let t = toks[k];
        let p = preds[k];
        assert(p.nikud_class < NIKUD_CLASS_COUNT);
        let before = decoded(text, toks, preds, k as nat);
        let out = token_output(text, t, p);
        assert(decoded(text, toks, preds, n) == before + out);
        lemma_strip_token_output(text, t, p);
        Seq::filter_distributes_over_add(before, out, |c: char| !is_niqud_mark(c));
        assert(stripped_text(before + out) == stripped_text(before) + stripped_text(out));
        if k == 0 {
            assert(stripped_text(before) == text.take(0));
            assert(stripped_text(out) == Seq::<char>::empty());
            assert(text.take(0) + Seq::<char>::empty() =~= text.take(0));
            assert(stripped_text(decoded(text, toks, preds, n)) == text.take(0));
        } else if k <= text.len() {
            assert(stripped_text(before) == text.take(k - 1));
            assert(t.char_index == Some((k - 1) as usize));
            assert(stripped_text(out) == seq![text[k - 1]]);
            assert(text.take(k - 1) + seq![text[k - 1]] =~= text.take(k));
            assert(stripped_text(decoded(text, toks, preds, n)) == text.take(k));
        } else {
            assert(k == text.len() + 1);
            assert(stripped_text(before) == text.take(text.len() as int));
            assert(stripped_text(out) == Seq::<char>::empty());
            assert(text.take(text.len() as int) + Seq::<char>::empty() =~= text.take(
                text.len() as int,
            ));
            assert(stripped_text(decoded(text, toks, preds, n)) == text.take(text.len() as int));
        }
    }
}

/// Decoding only adds marks: for a text with no niqud marks, tokenized as
/// [`tokens_of`] says, stripping the niqud from the decoded text gives the
/// text back, whatever valid predictions the model made.
pub proof fn lemma_decode_only_adds_marks(ids: Map<u32, u32>, text: Seq<char>, preds: Seq<TokenPrediction>)
    requires
        forall|i: int| 0 <= i < text.len() ==> !is_niqud_mark(#[trigger] text[i]),
        predictions_valid(tokens_of(ids, text), preds),
        text.len() <= usize::MAX,
    ensures
        stripped_text(decoded(text, tokens_of(ids, text), preds, tokens_of(ids, text).len())) == text,
{
    lemma_strip_decoded_prefix(ids, text, preds, tokens_of(ids, text).len());
    assert(text.take(text.len() as int) =~= text);
}

/// The model's niqud classes, entry by entry: none and the mater-lectionis
/// marker emit no mark; class 2 is the dagesh; classes 3 to 14 the vowel
/// points U+05B0 to U+05BB; classes 15 to 26 the dagesh followed by those
/// points; class 27 qamats qatan; class 28 the dagesh and qamats qatan.
pub proof fn lemma_nikud_class_table()
    ensures
        nikud_marks(0) == Seq::<char>::empty(),
        nikud_marks(1) == Seq::<char>::empty(),
        nikud_marks(2) == seq!['\u{05BC}'],
        nikud_marks(3) == seq!['\u{05B0}'],
        nikud_marks(4) == seq!['\u{05B1}'],
        nikud_marks(5) == seq!['\u{05B2}'],
        nikud_marks(6) == seq!['\u{05B3}'],
        nikud_marks(7) == seq!['\u{05B4}'],
        nikud_marks(8) == seq!['\u{05B5}'],
        nikud_marks(9) == seq!['\u{05B6}'],
        nikud_marks(10) == seq!['\u{05B7}'],
        nikud_marks(11) == seq!['\u{05B8}'],
        nikud_marks(12) == seq!['\u{05B9}'],
        nikud_marks(13) == seq!['\u{05BA}'],
        nikud_marks(14) == seq!['\u{05BB}'],
        nikud_marks(15) == seq!['\u{05BC}', '\u{05B0}'],
        nikud_marks(16) == seq!['\u{05BC}', '\u{05B1}'],
        nikud_marks(17) == seq!['\u{05BC}', '\u{05B2}'],
        nikud_marks(18) == seq!['\u{05BC}', '\u{05B3}'],
        nikud_marks(19) == seq!['\u{05BC}', '\u{05B4}'],
        nikud_marks(20) == seq!['\u{05BC}', '\u{05B5}'],
        nikud_marks(21) == seq!['\u{05BC}', '\u{05B6}'],
        nikud_marks(22) == seq!['\u{05BC}', '\u{05B7}'],
        nikud_marks(23) == seq!['\u{05BC}', '\u{05B8}'],
        nikud_marks(24) == seq!['\u{05BC}', '\u{05B9}'],
        nikud_marks(25) == seq!['\u{05BC}', '\u{05BA}'],
        nikud_marks(26) == seq!['\u{05BC}', '\u{05BB}'],
        nikud_marks(27) == seq!['\u{05C7}'],
        nikud_marks(28) == seq!['\u{05BC}', '\u{05C7}'],
{
}

/// A Hebrew letter other than shin, predicted with niqud class `c` (not
/// the mater-lectionis class) and no stress, vocal shva or prefix mark,
/// decodes to the letter followed by exactly the marks of class `c`; with
/// those three flags set, the stress mark, the vocal-shva mark and the
/// prefix boundary follow, in that order.
pub proof fn lemma_letter_decodes_with_class_marks(text: Seq<char>, token: Token, p: TokenPrediction, i: usize)
    requires
        token.char_index == Some(i),
        i < text.len(),
        is_hebrew_letter(text[i as int]),
        text[i as int] != '\u{05E9}',
        p.nikud_class < NIKUD_CLASS_COUNT,
        p.nikud_class != MAT_LECT_CLASS,
    ensures
        token_output(text, token, p) == seq![text[i as int]] + nikud_marks(p.nikud_class as nat) + (
        if p.stress {
            seq!['\u{05AB}']
        } else {
            Seq::<char>::empty()
        }) + (if p.vocal_shva {
            seq!['\u{05BD}']
        } else {
            Seq::<char>::empty()
        }) + (if p.prefix {
            seq!['|']
        } else {
            Seq::<char>::empty()
        }),
        !p.stress && !p.vocal_shva && !p.prefix ==> token_output(text, token, p) == seq![text[i as int]]
            + nikud_marks(p.nikud_class as nat),
{
    lemma_token_output_marks(text, token, p, i);
    assert(token_output(text, token, p) =~= seq![text[i as int]] + nikud_marks(p.nikud_class as nat) + (
    if p.stress {
        seq!['\u{05AB}']
    } else {
        Seq::<char>::empty()
    }) + (if p.vocal_shva {
        seq!['\u{05BD}']
    } else {
        Seq::<char>::empty()
    }) + (if p.prefix {
        seq!['|']
    } else {
        Seq::<char>::empty()
    }));
    assert(seq![text[i as int]] + nikud_marks(p.nikud_class as nat) + Seq::<char>::empty()
        + Seq::<char>::empty() + Seq::<char>::empty() =~= seq![text[i as int]] + nikud_marks(
        p.nikud_class as nat,
    ));
}

/// The other tokens: `[CLS]`/`[SEP]` (no position) and positions past the
/// text add nothing; a character that is not a Hebrew letter passes
/// through as it is; alef, vav or yod predicted as a mater lectionis stays
/// a bare letter; shin gets its shin dot (class 0) or sin dot (class 1)
/// right after it, before its niqud marks.
pub proof fn lemma_token_output_cases(text: Seq<char>, token: Token, p: TokenPrediction, i: usize)
    requires
        p.nikud_class < NIKUD_CLASS_COUNT,
    ensures
        token.char_index is None ==> token_output(text, token, p) == Seq::<char>::empty(),
        token.char_index == Some(i) && i >= text.len() ==> token_output(text, token, p)
            == Seq::<char>::empty(),
        token.char_index == Some(i) && i < text.len() && !(0x05D0 <= (text[i as int] as u32)
            <= 0x05EA) ==> token_output(text, token, p) == seq![text[i as int]],
        token.char_index == Some(i) && i < text.len() && (text[i as int] == '\u{05D0}'
            || text[i as int] == '\u{05D5}' || text[i as int] == '\u{05D9}') && p.nikud_class == 1
            ==> token_output(text, token, p) == seq![text[i as int]],
        token.char_index == Some(i) && i < text.len() && text[i as int] == '\u{05E9}' ==> (
        token_output(text, token, p).take(2) == seq![
            '\u{05E9}',
            if p.shin_class == 0 {
                '\u{05C1}'
            } else {
                '\u{05C2}'
            },
        ] && token_output(text, token, p).skip(2).take(nikud_marks(p.nikud_class as nat).len() as int)
            == nikud_marks(p.nikud_class as nat)),
{
    match token.char_index {
        Some(j) => if j == i && i < text.len() && text[i as int] == '\u{05E9}' {
            lemma_token_output_marks(text, token, p, i);
            let sh = if p.shin_class == 0 {
                '\u{05C1}'
            } else {
                '\u{05C2}'
            };
            let out = token_output(text, token, p);
            let rest = (if p.stress {
                seq!['\u{05AB}']
            } else {
                Seq::<char>::empty()
            }) + (if p.vocal_shva {
                seq!['\u{05BD}']
            } else {
                Seq::<char>::empty()
            }) + (if p.prefix {
                seq!['|']
            } else {
                Seq::<char>::empty()
            });
            let n = nikud_marks(p.nikud_class as nat);
            assert(out =~= seq!['\u{05E9}', sh] + n + rest);
            assert(out.take(2) =~= seq!['\u{05E9}', sh]);
            assert(out.skip(2).take(n.len() as int) =~= n);
        },
        None => {},
    }
}

} // verus!
