//! The niqud model's character-level tokenizer: its vocabulary (read from
//! a `tokenizer.json` file's `model.vocab` object) maps single characters to
//! token ids; a text becomes `[CLS]`, one token per character, `[SEP]`.
//! Each character is looked up after NFKC normalization and lower-casing,
//! falling back to `[UNK]`.
use vstd::prelude::*;
use unicode_normalization::UnicodeNormalization;
use std::collections::HashMap;
use crate::niqud::NiqudError;
use crate::text::{append_str, chars_of, lowercase_of, string_from_chars, to_lowercase};

verus! {

/// The id of the unknown-character token.
pub const UNK_ID: u32 = 0;

/// The id of the sequence-start token.
pub const CLS_ID: u32 = 1;

/// The id of the sequence-end token.
pub const SEP_ID: u32 = 2;

/// The characters of `c`'s NFKC normalization, as the
/// `unicode_normalization` crate computes it.
pub uninterp spec fn nfkc_of(c: char) -> Seq<char>;

/// `c` in NFKC normal form (`UnicodeNormalization::nfkc` on a `char`,
/// collected into a string).
#[verifier::external_body]
fn nfkc_string(c: char) -> (s: String)
    ensures
        s@ == nfkc_of(c),
{
    c.nfkc().collect::<String>()
}

/// The content of a JSON value, as far as the vocabulary reads it: a
/// number is kept as the unsigned integer it holds, if it holds one; an
/// object keeps its entries in the order its map iterates them (each key
/// once).
pub enum JsonView {
    Null,
    Bool(bool),
    Number(Option<u64>),
    Text(Seq<char>),
    Array(Seq<JsonView>),
    Object(Seq<(Seq<char>, JsonView)>),
}

#[verifier::external_type_specification]
#[verifier::external_body]
pub struct ExJsonValue(serde_json::Value);

/// The content of a `serde_json::Value`.
pub uninterp spec fn json_value(v: serde_json::Value) -> JsonView;

/// What `serde_json::from_str` makes of a text: the content of the value
/// it parses, or its error message.
pub uninterp spec fn parsed_json(text: Seq<char>) -> Result<JsonView, Seq<char>>;

/// Parses `text` as JSON (`serde_json::from_str` into a `Value`); a
/// failure gives the parser's message.
#[verifier::external_body]
fn parse_json(text: &str) -> (r: Result<serde_json::Value, String>)
    ensures
        match r {
            Ok(v) => parsed_json(text@) == Ok::<JsonView, Seq<char>>(json_value(v)),
            Err(e) => parsed_json(text@) == Err::<JsonView, Seq<char>>(e@),
        },
{
    match serde_json::from_str::<serde_json::Value>(text) {
        Ok(value) => Ok(value),
        Err(err) => Err(err.to_string()),
    }
}

/// The value of the first of `entries` with key `key`.
pub open spec fn find_member(entries: Seq<(Seq<char>, JsonView)>, key: Seq<char>) -> Option<JsonView>
    decreases entries.len(),
{
    if entries.len() == 0 {
        None
    } else if entries[0].0 == key {
        Some(entries[0].1)
    } else {
        find_member(entries.drop_first(), key)
    }
}

/// The member `key` of `v`: none unless `v` is an object with that key.
pub open spec fn member_of(v: JsonView, key: Seq<char>) -> Option<JsonView> {
    match v {
        JsonView::Object(entries) => find_member(entries, key),
        _ => None,
    }
}

/// The member `key` of `v` (`Value::get` with a string index, cloned):
/// present only when `v` is an object with that key.
#[verifier::external_body]
fn json_member(v: &serde_json::Value, key: &str) -> (r: Option<serde_json::Value>)
    ensures
        match r {
            Some(m) => member_of(json_value(*v), key@) == Some(json_value(m)),
            None => member_of(json_value(*v), key@) is None,
        },
{
    v.get(key).cloned()
}

/// The entries of `v` when it is an object (`Value::as_object`, each key
/// and value cloned, in the map's order); none otherwise.
#[verifier::external_body]
fn json_object_entries(v: &serde_json::Value) -> (r: Option<Vec<(String, serde_json::Value)>>)
    ensures
        match json_value(*v) {
            JsonView::Object(entries) => r matches Some(x) && x@.len() == entries.len() && (forall|
                i: int,
            |
                0 <= i < entries.len() ==> #[trigger] x@[i].0@ == entries[i].0 && json_value(x@[i].1)
                    == entries[i].1),
            _ => r is None,
        },
{
    v.as_object().map(|object| object.iter().map(|(key, value)| (key.clone(), value.clone())).collect())
}

/// The unsigned integer `v` holds (`Value::as_u64`): none unless `v` is a
/// number that holds one.
#[verifier::external_body]
fn json_as_u64(v: &serde_json::Value) -> (r: Option<u64>)
    ensures
        r == match json_value(*v) {
            JsonView::Number(n) => n,
            _ => None,
        },
{
    v.as_u64()
}

/// The unsigned integer a JSON value holds, if it is a number holding one.
pub open spec fn u64_of(v: JsonView) -> Option<u64> {
    match v {
        JsonView::Number(n) => n,
        _ => None,
    }
}

/// The vocabulary entries of a parsed `tokenizer.json`: the entries of its
/// `model.vocab` object, each key with the unsigned integer its value
/// holds; none when there is no such object.
pub open spec fn vocab_entries_of(root: JsonView) -> Option<Seq<(Seq<char>, Option<u64>)>> {
    match member_of(root, "model"@) {
        Some(model) => match member_of(model, "vocab"@) {
            Some(JsonView::Object(entries)) => Some(
                entries.map_values(|e: (Seq<char>, JsonView)| (e.0, u64_of(e.1))),
            ),
            _ => None,
        },
        None => None,
    }
}

/// The values of parsed vocabulary entries.
pub open spec fn entries_view(entries: Seq<(String, Option<u64>)>) -> Seq<(Seq<char>, Option<u64>)> {
    entries.map_values(|e: (String, Option<u64>)| (e.0@, e.1))
}

/// The value of a parse of a `tokenizer.json` text.
pub open spec fn parsed_view(parsed: Result<Option<Vec<(String, Option<u64>)>>, String>) -> Result<
    Option<Seq<(Seq<char>, Option<u64>)>>,
    Seq<char>,
> {
    match parsed {
        Ok(Some(entries)) => Ok(Some(entries_view(entries@))),
        Ok(None) => Ok(None),
        Err(e) => Err(e@),
    }
}

/// Reads the `model.vocab` entries of a parsed `tokenizer.json` (see
/// [`vocab_entries_of`]).
fn vocab_entries(root: &serde_json::Value) -> (r: Option<Vec<(String, Option<u64>)>>)
    ensures
        match r {
            Some(entries) => vocab_entries_of(json_value(*root)) == Some(entries_view(entries@)),
            None => vocab_entries_of(json_value(*root)) is None,
        },
{
    let model = match json_member(root, "model") {
        Some(m) => m,
        None => {
            return None;
        },
    };
    let vocab = match json_member(&model, "vocab") {
        Some(v) => v,
        None => {
            return None;
        },
    };
    let entries = match json_object_entries(&vocab) {
        Some(e) => e,
        None => {
            return None;
        },
    };
    let ghost es = match json_value(vocab) {
        JsonView::Object(es) => es,
        _ => Seq::empty(),
    };
    let mut out: Vec<(String, Option<u64>)> = Vec::new();
    let mut i: usize = 0;
    while i < entries.len()
        invariant
            i <= entries@.len(),
            entries@.len() == es.len(),
            json_value(vocab) == JsonView::Object(es),
            forall|k: int|
                0 <= k < es.len() ==> #[trigger] entries@[k].0@ == es[k].0 && json_value(
                    entries@[k].1,
                ) == es[k].1,
            entries_view(out@) =~= es.take(i as int).map_values(
                |e: (Seq<char>, JsonView)| (e.0, u64_of(e.1)),
            ),
        decreases entries@.len() - i,
    {
        let key = entries[i].0.clone();
        let id = json_as_u64(&entries[i].1);
        assert(entries@[i as int].0@ == es[i as int].0);
        assert(id == u64_of(es[i as int].1));
        let ghost before = out@;
        out.push((key, id));
        proof {
            let f = |e: (Seq<char>, JsonView)| (e.0, u64_of(e.1));
            assert(out@ == before.push((key, id)));
            assert(es.take(i + 1) =~= es.take(i as int).push(es[i as int]));
            assert(es.take(i + 1).map_values(f) =~= es.take(i as int).map_values(f).push(
                f(es[i as int]),
            ));
            assert(entries_view(out@) =~= entries_view(before).push((key@, id)));
        }
        i = i + 1;
    }
    assert(es.take(es.len() as int) =~= es);
    Some(out)
}

/// The character-to-id map that `entries` define: each entry whose key is
/// a single character and whose value is an unsigned integer maps that
/// character's code to the value (kept to its low 32 bits); other entries
/// (the multi-character special tokens) are skipped.
pub open spec fn vocab_of(entries: Seq<(Seq<char>, Option<u64>)>) -> Map<u32, u32>
    decreases entries.len(),
{
    if entries.len() == 0 {
        Map::empty()
    } else {
        let m = vocab_of(entries.drop_last());
        let (key, id) = entries.last();
        if key.len() == 1 && id is Some {
            m.insert(key[0] as u32, id->0 as u32)
        } else {
            m
        }
    }
}

/// The tokenizer's vocabulary: single characters (by code) to token ids.
pub struct Vocab {
    char_to_id: HashMap<u32, u32>,
}

impl Vocab {
    /// The vocabulary's map from character codes to token ids.
    pub closed spec fn ids(&self) -> Map<u32, u32> {
        self.char_to_id@
    }

    /// The vocabulary of a parsed `tokenizer.json`'s `model.vocab`
    /// entries (see [`vocab_of`]).
    pub fn from_entries(entries: &Vec<(String, Option<u64>)>) -> (v: Self)
        ensures
            v.ids() == vocab_of(entries_view(entries@)),
    {
        let ghost ev = entries_view(entries@);
        let mut char_to_id: HashMap<u32, u32> = HashMap::new();
        let mut i: usize = 0;
        while i < entries.len()
            invariant
                i <= entries@.len(),
                ev == entries_view(entries@),
                char_to_id@ == vocab_of(ev.take(i as int)),
            decreases entries@.len() - i,
        {
            assert(ev.take(i + 1).drop_last() =~= ev.take(i as int));
            let key = chars_of(entries[i].0.as_str());
            if key.len() == 1 {
                match entries[i].1 {
                    Some(id) => {
                        let code = key[0] as u32;
                        let short = #[verifier::truncate] (id as u32);
                        char_to_id.insert(code, short);
                    },
                    None => {},
                }
            }
            i = i + 1;
        }
        assert(ev.take(entries@.len() as int) =~= ev);
        Vocab { char_to_id }
    }

    /// The vocabulary from a parse of a `tokenizer.json` text: the
    /// parser's error or a missing `model.vocab` object is a model-load
    /// error; otherwise [`Vocab::from_entries`].
    pub fn from_parsed(parsed: Result<Option<Vec<(String, Option<u64>)>>, String>) -> (r: Result<
        Self,
        NiqudError,
    >)
        ensures
            match parsed_view(parsed) {
                Ok(Some(entries)) => r matches Ok(v) && v.ids() == vocab_of(entries),
                Ok(None) => r matches Err(e) && e matches NiqudError::ModelLoadFailed(m) && m@
                    == "tokenizer.json is missing a model.vocab object"@,
                Err(msg) => r matches Err(e) && e matches NiqudError::ModelLoadFailed(m) && m@
                    == "invalid tokenizer.json: "@ + msg,
            },
    {
        match parsed {
            Ok(Some(entries)) => Ok(Vocab::from_entries(&entries)),
            Ok(None) => Err(
                NiqudError::ModelLoadFailed(
                    String::from_str("tokenizer.json is missing a model.vocab object"),
                ),
            ),
            Err(msg) => {
                let mut v: Vec<char> = Vec::new();
                append_str(&mut v, "invalid tokenizer.json: ");
                append_str(&mut v, msg.as_str());
                Err(NiqudError::ModelLoadFailed(string_from_chars(v.as_slice())))
            },
        }
    }

    /// The vocabulary of a `tokenizer.json` text: a text that does not
    /// parse as JSON, or lacks a `model.vocab` object, is a model-load
    /// error; otherwise the vocabulary of that object's entries (see
    /// [`vocab_entries_of`] and [`Vocab::from_parsed`]).
    pub fn from_tokenizer_json(json: &str) -> (r: Result<Self, NiqudError>)
        ensures
            match parsed_json(json@) {
                Ok(root) => match vocab_entries_of(root) {
                    Some(entries) => r matches Ok(v) && v.ids() == vocab_of(entries),
                    None => r matches Err(e) && e matches NiqudError::ModelLoadFailed(m) && m@
                        == "tokenizer.json is missing a model.vocab object"@,
                },
                Err(msg) => r matches Err(e) && e matches NiqudError::ModelLoadFailed(m) && m@
                    == "invalid tokenizer.json: "@ + msg,
            },
    {
        let parsed = match parse_json(json) {
            Ok(root) => Ok(vocab_entries(&root)),
            Err(msg) => Err(msg),
        };
        Vocab::from_parsed(parsed)
    }
}

/// The token id of `c`: its NFKC form, lower-cased, looked up in `ids`
/// when that is a single character; `[UNK]` when it is not one character
/// or is not in the vocabulary.
pub open spec fn token_id(ids: Map<u32, u32>, c: char) -> u32 {
    let n = lowercase_of(nfkc_of(c));
    if n.len() == 1 && ids.contains_key(n[0] as u32) {
        ids[n[0] as u32]
    } else {
        UNK_ID
    }
}

/// The token id of `c` in `vocab` (see [`token_id`]).
pub fn normalized_id(vocab: &Vocab, c: char) -> (id: u32)
    ensures
        id == token_id(vocab.ids(), c),
{
    let nfkc = nfkc_string(c);
    let lower = to_lowercase(nfkc.as_str());
    let cs = chars_of(lower.as_str());
    if cs.len() == 1 {
        let code = cs[0] as u32;
        match vocab.char_to_id.get(&code) {
            Some(id) => *id,
            None => UNK_ID,
        }
    } else {
        UNK_ID
    }
}

/// One token: its id, and the position (in characters) of the character
/// it stands for; `None` for `[CLS]` and `[SEP]`.
#[derive(Debug, Clone, Copy, PartialEq, Eq)]
pub struct Token {
    /// The token id.
    pub id: u32,
    /// The source character's position, if any.
    pub char_index: Option<usize>,
}

/// The tokens of `text` under `ids`: `[CLS]`, one token per character
/// (in order, each with its position), `[SEP]`.
pub open spec fn tokens_of(ids: Map<u32, u32>, text: Seq<char>) -> Seq<Token> {
    seq![Token { id: CLS_ID, char_index: None }] + Seq::new(
        text.len(),
        |i: int| Token { id: token_id(ids, text[i]), char_index: Some(i as usize) },
    ) + seq![Token { id: SEP_ID, char_index: None }]
}

/// Tokenizes `text` (already stripped of niqud): `[CLS]`, one token per
/// character, `[SEP]`.
pub fn tokenize(vocab: &Vocab, text: &str) -> (tokens: Vec<Token>)
    ensures
        tokens@ == tokens_of(vocab.ids(), text@),
{
    let cs = chars_of(text);
    let mut tokens: Vec<Token> = Vec::new();
    tokens.push(Token { id: CLS_ID, char_index: None });
    let mut i: usize = 0;
    while i < cs.len()
        invariant
            i <= cs@.len(),
            cs@ == text@,
            tokens@.len() == i + 1,
            tokens@[0] == (Token { id: CLS_ID, char_index: None }),
            forall|k: int|
                0 <= k < i ==> #[trigger] tokens@[k + 1] == (Token {
                    id: token_id(vocab.ids(), text@[k]),
                    char_index: Some(k as usize),
                }),
        decreases cs@.len() - i,
    {
        let id = normalized_id(vocab, cs[i]);
        tokens.push(Token { id, char_index: Some(i) });
        i = i + 1;
    }
    tokens.push(Token { id: SEP_ID, char_index: None });
    let ghost mid = Seq::new(
        text@.len(),
        |q: int| Token { id: token_id(vocab.ids(), text@[q]), char_index: Some(q as usize) },
    );
    let ghost expected = seq![Token { id: CLS_ID, char_index: None }] + mid + seq![
        Token { id: SEP_ID, char_index: None },
    ];
    assert forall|k: int| 0 <= k < tokens@.len() implies tokens@[k] == expected[k] by {
        if 1 <= k <= text@.len() {
            assert(tokens@[(k - 1) + 1] == mid[k - 1]);
        }
    }
    assert(tokens@ =~= expected);
    tokens
}

} // verus!
