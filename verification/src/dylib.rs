//! Choosing the ONNX Runtime shared library to load among the files found
//! in the usual library folders: an unversioned `libonnxruntime.so` wins;
//! otherwise the versioned file with the highest version, compared number
//! by number (so `.so.1.24` beats `.so.1.9`).
use vstd::prelude::*;
use crate::text::{chars_of, split_chars, split_on, string_views, views};

verus! {

/// Whether `c` is an ASCII digit.
pub open spec fn is_ascii_digit(c: char) -> bool {
    '0' <= c && c <= '9'
}

/// The number that the decimal digits `s` spell.
pub open spec fn digits_value(s: Seq<char>) -> nat
    decreases s.len(),
{
    if s.len() == 0 {
        0
    } else {
        digits_value(s.drop_last()) * 10 + ((s.last() as u32) - ('0' as u32)) as nat
    }
}

/// `s` without a leading `+`.
pub open spec fn unsigned_digits(s: Seq<char>) -> Seq<char> {
    if s.len() > 0 && s[0] == '+' {
        s.drop_first()
    } else {
        s
    }
}

/// A part with a non-digit, or too large a value, is no number.
proof fn lemma_parse_fails(s: Seq<char>, k: int)
    requires
        0 <= k < unsigned_digits(s).len(),
        !is_ascii_digit(unsigned_digits(s)[k]) || digits_value(unsigned_digits(s)) > u64::MAX,
    ensures
        parse_u64(s) is None,
{
}

/// What `str::parse::<u64>` gives for `s`: an optional `+` followed by at
/// least one ASCII digit, with a value that fits in `u64`; `None`
/// otherwise.
pub open spec fn parse_u64(s: Seq<char>) -> Option<u64> {
    let digits = unsigned_digits(s);
    if digits.len() > 0 && (forall|i: int| 0 <= i < digits.len() ==> is_ascii_digit(#[trigger] digits[i]))
        && digits_value(digits) <= u64::MAX {
        Some(digits_value(digits) as u64)
    } else {
        None
    }
}

/// `s` with every leading repetition of `prefix` removed.
pub open spec fn strip_repeated(s: Seq<char>, prefix: Seq<char>) -> Seq<char>
    decreases s.len(),
{
    if prefix.len() > 0 && s.len() >= prefix.len() && s.take(prefix.len() as int) == prefix {
        strip_repeated(s.skip(prefix.len() as int), prefix)
    } else {
        s
    }
}

/// The versioned library file name prefix.
pub open spec fn versioned_prefix() -> Seq<char> {
    "libonnxruntime.so."@
}

/// The version numbers of a library file name: the name without its
/// leading `libonnxruntime.so.` (however often repeated), split on `.`,
/// each part's number (zero where a part is not a number).
pub open spec fn version_of(name: Seq<char>) -> Seq<u64> {
    split_on(strip_repeated(name, versioned_prefix()), '.').map_values(
        |part: Seq<char>|
            match parse_u64(part) {
                Some(v) => v,
                None => 0,
            },
    )
}

/// Whether version `a` sorts before version `b`: compared number by
/// number, a prefix before any longer version.
pub open spec fn version_less(a: Seq<u64>, b: Seq<u64>) -> bool
    decreases a.len(),
{
    if a.len() == 0 {
        b.len() > 0
    } else if b.len() == 0 {
        false
    } else if a[0] != b[0] {
        a[0] < b[0]
    } else {
        version_less(a.drop_first(), b.drop_first())
    }
}

/// No version sorts before itself.
pub proof fn lemma_version_less_irreflexive(a: Seq<u64>)
    ensures
        !version_less(a, a),
    decreases a.len(),
{
    if a.len() > 0 {
        lemma_version_less_irreflexive(a.drop_first());
    }
}

/// Version order is total: of two different versions one sorts first.
pub proof fn lemma_version_less_total(a: Seq<u64>, b: Seq<u64>)
    ensures
        version_less(a, b) ==> !version_less(b, a),
        a != b ==> version_less(a, b) || version_less(b, a),
    decreases a.len(),
{
    if a.len() > 0 && b.len() > 0 {
        lemma_version_less_total(a.drop_first(), b.drop_first());
        if a[0] == b[0] && a.drop_first() == b.drop_first() {
            assert forall|i: int| 0 <= i < a.len() implies a[i] == b[i] by {
                if i > 0 {
                    assert(a[i] == a.drop_first()[i - 1]);
                    assert(b[i] == b.drop_first()[i - 1]);
                }
            }
            assert(a =~= b);
        }
    } else if a.len() == 0 && b.len() == 0 {
        assert(a =~= b);
    }
}

/// Version order is transitive.
pub proof fn lemma_version_less_transitive(a: Seq<u64>, b: Seq<u64>, c: Seq<u64>)
    requires
        version_less(a, b),
        version_less(b, c),
    ensures
        version_less(a, c),
    decreases a.len(),
{
    if a.len() > 0 && b.len() > 0 && c.len() > 0 {
        if a[0] == b[0] && b[0] == c[0] {
            lemma_version_less_transitive(a.drop_first(), b.drop_first(), c.drop_first());
        }
    }
}

/// The number a version part spells, or zero.
fn part_number(part: &[char]) -> (v: u64)
    ensures
        v == (match parse_u64(part@) {
            Some(n) => n,
            None => 0,
        }),
{
    let len = part.len();
    let start: usize = if len > 0 && part[0] == '+' {
        1
    } else {
        0
    };
    let ghost digits = unsigned_digits(part@);
    assert(digits =~= part@.skip(start as int));
    if start >= len {
        return 0;
    }
    let mut value: u64 = 0;
    let mut i: usize = start;
    while i < len
        invariant
            start <= i <= len,
            len == part@.len(),
            start < len,
            digits == part@.skip(start as int),
            digits == unsigned_digits(part@),
            forall|k: int| start <= k < i ==> is_ascii_digit(#[trigger] part@[k]),
            value as nat == digits_value(part@.subrange(start as int, i as int)),
        decreases len - i,
    {
        let c = part[i];
        assert(part@.subrange(start as int, i + 1).drop_last() =~= part@.subrange(
            start as int,
            i as int,
        ));
        assert(digits[i - start] == part@[i as int]);
        if !('0' <= c && c <= '9') {
            proof {
                lemma_parse_fails(part@, i - start);
            }
            return 0;
        }
        let d = (c as u32 - '0' as u32) as u64;
        let ghost next_value = digits_value(part@.subrange(start as int, i + 1));
        assert(next_value == value * 10 + d);
        proof {
            lemma_digits_value_grows(digits, i - start + 1);
            assert(part@.subrange(start as int, i + 1) =~= digits.take(i - start + 1));
        }
        match value.checked_mul(10) {
            Some(tens) => match tens.checked_add(d) {
                Some(next) => {
                    value = next;
                },
                None => {
                    proof {
                        lemma_parse_fails(part@, i - start);
                    }
                    return 0;
                },
            },
            None => {
                proof {
                    lemma_parse_fails(part@, i - start);
                }
                return 0;
            },
        }
        i = i + 1;
    }
    assert(part@.subrange(start as int, len as int) =~= digits);
    value
}

/// A digit string's value is at least that of each of its prefixes.
proof fn lemma_digits_value_grows(s: Seq<char>, n: int)
    requires
        0 <= n <= s.len(),
    ensures
        digits_value(s.take(n)) <= digits_value(s),
    decreases s.len() - n,
{
    if n < s.len() {
        lemma_digits_value_grows(s, n + 1);
        assert(s.take(n + 1).drop_last() =~= s.take(n));
    } else {
        assert(s.take(n) =~= s);
    }
}

/// `name` without its leading repetitions of `prefix`.
fn strip_prefix_repeated(name: &[char], prefix: &[char]) -> (s: Vec<char>)
    requires
        prefix@.len() > 0,
    ensures
        s@ == strip_repeated(name@, prefix@),
{
    let plen = prefix.len();
    let n = name.len();
    let mut start: usize = 0;
    let mut done = false;
    assert(name@.skip(0) =~= name@);
    while !done
        invariant
            n == name@.len(),
            start <= name@.len(),
            plen == prefix@.len(),
            plen > 0,
            strip_repeated(name@, prefix@) == strip_repeated(name@.skip(start as int), prefix@),
            done ==> strip_repeated(name@.skip(start as int), prefix@) == name@.skip(start as int),
        decreases name@.len() - start + (if done {
            0int
        } else {
            1int
        }),
    {
        let rest = name.len() - start;
        let mut matches = rest >= plen;
        let mut k: usize = 0;
        while matches && k < plen
            invariant
                k <= plen,
                plen == prefix@.len(),
                n == name@.len(),
                start <= name@.len(),
                rest + start == name@.len(),
                matches ==> rest >= plen,
                matches ==> forall|q: int| 0 <= q < k ==> name@[start + q] == prefix@[q],
                !matches ==> !(rest >= plen && name@.skip(start as int).take(plen as int)
                    == prefix@),
            decreases plen - k + (if matches {
                1int
            } else {
                0int
            }),
        {
            if name[start + k] != prefix[k] {
                assert(name@.skip(start as int).take(plen as int)[k as int] == name@[start + k]);
                matches = false;
            } else {
                k = k + 1;
            }
        }
        if matches {
            assert(name@.skip(start as int).take(plen as int) =~= prefix@);
            assert(name@.skip(start as int).skip(plen as int) =~= name@.skip(start + plen));
            start = start + plen;
        } else {
            done = true;
        }
    }
    let mut s: Vec<char> = Vec::new();
    let mut p: usize = start;
    while p < name.len()
        invariant
            start <= p <= name@.len(),
            s@ == name@.subrange(start as int, p as int),
        decreases name@.len() - p,
    {
        s.push(name[p]);
        assert(name@.subrange(start as int, p + 1) =~= name@.subrange(start as int, p as int).push(
            name@[p as int],
        ));
        p = p + 1;
    }
    assert(s@ =~= name@.skip(start as int));
    s
}

/// The version numbers of a library file name (see [`version_of`]).
pub fn version_key(name: &str) -> (key: Vec<u64>)
    ensures
        key@ == version_of(name@),
{
    let cs = chars_of(name);
    let prefix = chars_of("libonnxruntime.so.");
    proof {
        reveal_strlit("libonnxruntime.so.");
    }
    let rest = strip_prefix_repeated(cs.as_slice(), prefix.as_slice());
    let parts = split_chars(rest.as_slice(), '.');
    let mut key: Vec<u64> = Vec::new();
    let mut i: usize = 0;
    while i < parts.len()
        invariant
            i <= parts@.len(),
            views(parts@) == split_on(strip_repeated(name@, versioned_prefix()), '.'),
            key@.len() == i,
            forall|k: int|
                0 <= k < i ==> #[trigger] key@[k] == (match parse_u64(parts@[k]@) {
                    Some(v) => v,
                    None => 0,
                }),
        decreases parts@.len() - i,
    {
        let v = part_number(parts[i].as_slice());
        key.push(v);
        i = i + 1;
    }
    assert forall|k: int| 0 <= k < key@.len() implies key@[k] == version_of(name@)[k] by {
        assert(views(parts@)[k] == parts@[k]@);
    }
    assert(key@ =~= version_of(name@));
    key
}

/// Whether version `a` sorts before version `b`.
pub fn less_version(a: &[u64], b: &[u64]) -> (lt: bool)
    ensures
        lt == version_less(a@, b@),
{
    let mut i: usize = 0;
    assert(a@.skip(0) =~= a@);
    assert(b@.skip(0) =~= b@);
    while i < a.len() && i < b.len()
        invariant
            i <= a@.len(),
            i <= b@.len(),
            version_less(a@, b@) == version_less(a@.skip(i as int), b@.skip(i as int)),
        decreases a@.len() - i,
    {
        assert(a@.skip(i as int).drop_first() =~= a@.skip(i + 1));
        assert(b@.skip(i as int).drop_first() =~= b@.skip(i + 1));
        if a[i] != b[i] {
            return a[i] < b[i];
        }
        i = i + 1;
    }
    i == a.len() && i < b.len()
}

/// Whether `name` is the unversioned library file.
pub open spec fn is_unversioned_lib(name: Seq<char>) -> bool {
    name == "libonnxruntime.so"@
}

/// Whether `name` is a versioned library file.
pub open spec fn is_versioned_lib(name: Seq<char>) -> bool {
    name.len() >= versioned_prefix().len() && name.take(versioned_prefix().len() as int)
        == versioned_prefix()
}

/// Whether `i` is the library file to load among `names`: the first
/// unversioned one if there is any; otherwise a versioned one with no
/// higher version among them, and the first of those.
pub open spec fn is_best_lib(names: Seq<Seq<char>>, i: int) -> bool {
    &&& 0 <= i < names.len()
    &&& if exists|j: int| 0 <= j < names.len() && is_unversioned_lib(#[trigger] names[j]) {
        &&& is_unversioned_lib(names[i])
        &&& forall|j: int| 0 <= j < i ==> !is_unversioned_lib(#[trigger] names[j])
    } else {
        &&& is_versioned_lib(names[i])
        &&& forall|j: int|
            0 <= j < names.len() && is_versioned_lib(#[trigger] names[j]) ==> !version_less(
                version_of(names[i]),
                version_of(names[j]),
            )
        &&& forall|j: int|
            0 <= j < i && is_versioned_lib(#[trigger] names[j]) ==> version_less(
                version_of(names[j]),
                version_of(names[i]),
            )
    }
}

/// Whether `name` starts with `prefix`.
fn starts_with(name: &[char], prefix: &[char]) -> (b: bool)
    ensures
        b == (name@.len() >= prefix@.len() && name@.take(prefix@.len() as int) == prefix@),
{
    if name.len() < prefix.len() {
        return false;
    }
    let mut k: usize = 0;
    while k < prefix.len()
        invariant
            k <= prefix@.len(),
            name@.len() >= prefix@.len(),
            forall|q: int| 0 <= q < k ==> name@[q] == prefix@[q],
        decreases prefix@.len() - k,
    {
        if name[k] != prefix[k] {
            assert(name@.take(prefix@.len() as int)[k as int] == name@[k as int]);
            return false;
        }
        k = k + 1;
    }
    assert(name@.take(prefix@.len() as int) =~= prefix@);
    true
}

/// The index of the library file to load among the file `names` found,
/// in the order found (see [`is_best_lib`]); `None` when no name is a
/// library file.
pub fn best_onnxruntime_dylib(names: &Vec<String>) -> (best: Option<usize>)
    ensures
        match best {
            Some(i) => is_best_lib(string_views(names@), i as int),
            None => forall|j: int|
                0 <= j < names@.len() ==> !is_unversioned_lib(#[trigger] names@[j]@)
                    && !is_versioned_lib(names@[j]@),
        },
{
    let ghost ns = string_views(names@);
    let exact = chars_of("libonnxruntime.so");
    let prefix = chars_of("libonnxruntime.so.");
    let mut best: Option<usize> = None;
    let mut best_key: Vec<u64> = Vec::new();
    let mut i: usize = 0;
    while i < names.len()
        invariant
            i <= names@.len(),
            ns == string_views(names@),
            exact@ == "libonnxruntime.so"@,
            prefix@ == versioned_prefix(),
            forall|j: int| 0 <= j < i ==> !is_unversioned_lib(#[trigger] ns[j]),
            match best {
                Some(b) => {
                    &&& b < i
                    &&& is_versioned_lib(ns[b as int])
                    &&& best_key@ == version_of(ns[b as int])
                    &&& forall|j: int|
                        0 <= j < i && is_versioned_lib(#[trigger] ns[j]) ==> !version_less(
                            version_of(ns[b as int]),
                            version_of(ns[j]),
                        )
                    &&& forall|j: int|
                        0 <= j < b && is_versioned_lib(#[trigger] ns[j]) ==> version_less(
                            version_of(ns[j]),
                            version_of(ns[b as int]),
                        )
                },
                None => forall|j: int| 0 <= j < i ==> !is_versioned_lib(#[trigger] ns[j]),
            },
        decreases names@.len() - i,
    {
        let name = chars_of(names[i].as_str());
        assert(ns[i as int] == name@);
        if crate::hebrew_word_merge::chars_equal(name.as_slice(), exact.as_slice()) {
            assert(is_unversioned_lib(ns[i as int]));
            return Some(i);
        }
        if starts_with(name.as_slice(), prefix.as_slice()) {
            let key = version_key(names[i].as_str());
            let better = match best {
                None => true,
                Some(_) => less_version(best_key.as_slice(), key.as_slice()),
            };
            if better {
                proof {
                    match best {
                        Some(b) => {
                            assert forall|j: int|
                                0 <= j < i + 1 && is_versioned_lib(#[trigger] ns[j]) implies !version_less(
                                key@,
                                version_of(ns[j]),
                            ) by {
                                lemma_version_less_total(version_of(ns[j]), key@);
                                if j < i {
                                    lemma_version_less_total(version_of(ns[b as int]), version_of(ns[j]));
                                    if version_of(ns[j]) != version_of(ns[b as int]) {
                                        lemma_version_less_transitive(
                                            version_of(ns[j]),
                                            version_of(ns[b as int]),
                                            key@,
                                        );
                                    }
                                } else {
                                    lemma_version_less_irreflexive(key@);
                                }
                            }
                            assert forall|j: int|
                                0 <= j < i && is_versioned_lib(#[trigger] ns[j]) implies version_less(
                                version_of(ns[j]),
                                key@,
                            ) by {
                                lemma_version_less_total(version_of(ns[b as int]), version_of(ns[j]));
                                if version_of(ns[j]) != version_of(ns[b as int]) {
                                    lemma_version_less_transitive(
                                        version_of(ns[j]),
                                        version_of(ns[b as int]),
                                        key@,
                                    );
                                }
                            }
                        },
                        None => {
                            lemma_version_less_irreflexive(key@);
                        },
                    }
                }
                best = Some(i);
                best_key = key;
            }
        }
        i = i + 1;
    }
    proof {
        match best {
            Some(b) => {
                assert(ns.len() == names@.len());
                assert(!(exists|j: int| 0 <= j < ns.len() && is_unversioned_lib(#[trigger] ns[j])));
                assert(is_best_lib(ns, b as int));
            },
            None => {
                assert(forall|j: int| 0 <= j < ns.len() ==> !is_versioned_lib(#[trigger] ns[j]));
                assert(forall|j: int| 0 <= j < names@.len() ==> #[trigger] names@[j]@ == ns[j]);
            },
        }
    }
    best
}

} // verus!
