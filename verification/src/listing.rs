//! Folder listings for the in-app file dialogs: file paths as text, the
//! standard library's path operations behind named results, file-name
//! extensions, a stable sort of entries by name, and the row model the
//! dialogs show.
use vstd::prelude::*;
use crate::text::{chars_less, lemma_chars_less_total, lemma_chars_less_transitive, less_chars, chars_of};

verus! {

/// The final component of path `p` as `Path::file_name` gives it (`None`
/// when the path ends in `..` or a root, or is empty).
pub uninterp spec fn path_file_name(p: Seq<char>) -> Option<Seq<char>>;

/// The parent of path `p` as `Path::parent` gives it (`None` at a root or
/// for the empty path).
pub uninterp spec fn path_parent(p: Seq<char>) -> Option<Seq<char>>;

/// Path `base` with `tail` appended as `Path::join` gives it.
pub uninterp spec fn path_join(base: Seq<char>, tail: Seq<char>) -> Seq<char>;

/// The value of an optional string.
pub open spec fn opt_view(o: Option<String>) -> Option<Seq<char>> {
    match o {
        Some(s) => Some(s@),
        None => None,
    }
}

/// The final component of `path` (`Path::file_name`, as text).
#[verifier::external_body]
pub(crate) fn file_name_of(path: &str) -> (name: Option<String>)
    ensures
        opt_view(name) == path_file_name(path@),
{
    std::path::Path::new(path).file_name().map(|name| name.to_string_lossy().into_owned())
}

/// The parent of `path` (`Path::parent`, as text).
#[verifier::external_body]
pub(crate) fn parent_of(path: &str) -> (parent: Option<String>)
    ensures
        opt_view(parent) == path_parent(path@),
{
    std::path::Path::new(path).parent().map(|parent| parent.to_string_lossy().into_owned())
}

/// `base` joined with `tail` (`Path::join`, as text).
#[verifier::external_body]
pub(crate) fn join_path(base: &str, tail: &str) -> (joined: String)
    ensures
        joined@ == path_join(base@, tail@),
{
    std::path::Path::new(base).join(tail).to_string_lossy().into_owned()
}

/// The position of the last `.` in `name`, if any.
pub open spec fn last_dot(name: Seq<char>) -> Option<int>
    decreases name.len(),
{
    if name.len() == 0 {
        None
    } else if name.last() == '.' {
        Some(name.len() - 1)
    } else {
        last_dot(name.drop_last())
    }
}

proof fn lemma_last_dot_range(name: Seq<char>)
    ensures
        last_dot(name) matches Some(d) ==> 0 <= d < name.len() && name[d] == '.',
    decreases name.len(),
{
    if name.len() > 0 && name.last() != '.' {
        lemma_last_dot_range(name.drop_last());
    }
}

/// The extension of a file name: the part after its last `.`, unless it
/// has no `.` other than a leading one (`Path::extension` on a file name).
pub open spec fn name_extension(name: Seq<char>) -> Option<Seq<char>> {
    match last_dot(name) {
        Some(d) => if d == 0 {
            None
        } else {
            Some(name.skip(d + 1))
        },
        None => None,
    }
}

/// The stem of a file name: the part before its last `.`, or the whole
/// name when it has no `.` other than a leading one (`Path::file_stem` on
/// a file name).
pub open spec fn name_stem(name: Seq<char>) -> Seq<char> {
    match last_dot(name) {
        Some(d) => if d == 0 {
            name
        } else {
            name.take(d)
        },
        None => name,
    }
}

/// The extension of path `p`.
pub open spec fn path_extension(p: Seq<char>) -> Option<Seq<char>> {
    match path_file_name(p) {
        Some(name) => name_extension(name),
        None => None,
    }
}

/// The position of the last `.` in `name`.
fn find_last_dot(name: &[char]) -> (d: Option<usize>)
    ensures
        match d {
            Some(i) => last_dot(name@) == Some(i as int),
            None => last_dot(name@) is None,
        },
{
    let mut k: usize = name.len();
    assert(name@.take(k as int) =~= name@);
    while k > 0
        invariant
            k <= name@.len(),
            last_dot(name@) == last_dot(name@.take(k as int)),
        decreases k,
    {
        assert(name@.take(k as int).drop_last() =~= name@.take(k - 1));
        if name[k - 1] == '.' {
            return Some(k - 1);
        }
        k = k - 1;
    }
    None
}

/// The extension of file name `name`.
pub fn extension_of_name(name: &[char]) -> (ext: Option<Vec<char>>)
    ensures
        match ext {
            Some(e) => name_extension(name@) == Some(e@),
            None => name_extension(name@) is None,
        },
{
    proof {
        lemma_last_dot_range(name@);
    }
    let n = name.len();
    match find_last_dot(name) {
        Some(d) => {
            if d == 0 {
                None
            } else {
                let mut e: Vec<char> = Vec::new();
                let mut i: usize = d + 1;
                while i < name.len()
                    invariant
                        d + 1 <= i <= name@.len(),
                        e@ == name@.subrange(d + 1, i as int),
                    decreases name@.len() - i,
                {
                    e.push(name[i]);
                    assert(name@.subrange(d + 1, i + 1) =~= name@.subrange(d + 1, i as int).push(
                        name@[i as int],
                    ));
                    i = i + 1;
                }
                assert(e@ =~= name@.skip(d + 1));
                Some(e)
            }
        },
        None => None,
    }
}

/// The stem of file name `name`.
pub fn stem_of_name(name: &[char]) -> (stem: Vec<char>)
    ensures
        stem@ == name_stem(name@),
{
    proof {
        lemma_last_dot_range(name@);
    }
    let end = match find_last_dot(name) {
        Some(d) => if d == 0 {
            name.len()
        } else {
            d
        },
        None => name.len(),
    };
    let mut s: Vec<char> = Vec::new();
    let mut i: usize = 0;
    while i < end
        invariant
            end <= name@.len(),
            i <= end,
            s@ == name@.take(i as int),
        decreases end - i,
    {
        s.push(name[i]);
        assert(name@.take(i + 1) =~= name@.take(i as int).push(name@[i as int]));
        i = i + 1;
    }
    assert(name@.take(name@.len() as int) =~= name@);
    s
}

/// The extension of path `path`.
pub fn path_extension_of(path: &str) -> (ext: Option<Vec<char>>)
    ensures
        match ext {
            Some(e) => path_extension(path@) == Some(e@),
            None => path_extension(path@) is None,
        },
{
    match file_name_of(path) {
        Some(name) => {
            let cs = chars_of(name.as_str());
            extension_of_name(cs.as_slice())
        },
        None => None,
    }
}

/// One row of a file dialog's list.
#[derive(Debug, Clone, PartialEq, Eq)]
pub struct FileListRow {
    /// The row's label.
    pub name: String,
    /// The file's size label, or empty.
    pub size_label: String,
    /// Whether the row is the selected one.
    pub is_selected: bool,
    /// Whether clicking the row navigates to another folder.
    pub is_navigable: bool,
}

/// The value of a [`FileListRow`].
pub struct FileListRowView {
    /// The row's label.
    pub name: Seq<char>,
    /// The size label.
    pub size_label: Seq<char>,
    /// Whether the row is selected.
    pub is_selected: bool,
    /// Whether the row navigates.
    pub is_navigable: bool,
}

impl View for FileListRow {
    type V = FileListRowView;

    open spec fn view(&self) -> FileListRowView {
        FileListRowView {
            name: self.name@,
            size_label: self.size_label@,
            is_selected: self.is_selected,
            is_navigable: self.is_navigable,
        }
    }
}

/// The values of a sequence of rows.
pub open spec fn row_views(rows: Seq<FileListRow>) -> Seq<FileListRowView> {
    rows.map_values(|r: FileListRow| r@)
}

/// Whether the row at `index` is the selected one: `selected` is not
/// negative and equals `index`.
pub open spec fn is_selected_index(index: int, selected: i32) -> bool {
    selected >= 0 && index == selected as int
}

/// Whether `index` is the selected position.
pub fn selected_at(index: usize, selected: i32) -> (b: bool)
    ensures
        b == is_selected_index(index as int, selected),
{
    selected >= 0 && index as u64 == selected as u64
}

/// One entry of a folder as read from disk.
#[derive(Debug, Clone, PartialEq, Eq)]
pub struct DirItem {
    /// The entry's full path.
    pub path: String,
    /// Whether it is a folder.
    pub is_dir: bool,
    /// Whether it is a regular file.
    pub is_file: bool,
    /// Its size in bytes, when it could be read.
    pub size: Option<u64>,
}

/// The first position in `order` (from `from` on) whose name sorts after
/// `key`; `order.len()` when there is none.
pub open spec fn first_after(order: Seq<int>, names: Seq<Seq<char>>, key: Seq<char>, from: int) -> int
    decreases order.len() - from,
{
    if from >= order.len() || from < 0 {
        order.len() as int
    } else if chars_less(key, names[order[from]]) {
        from
    } else {
        first_after(order, names, key, from + 1)
    }
}

/// The positions `0..n` of `names`, stably sorted by name: each position
/// in turn is inserted after every earlier one whose name does not sort
/// after its own.
pub open spec fn sorted_order(names: Seq<Seq<char>>, n: nat) -> Seq<int>
    decreases n,
{
    if n == 0 {
        Seq::empty()
    } else {
        let prev = sorted_order(names, (n - 1) as nat);
        let key = names[n - 1];
        prev.insert(first_after(prev, names, key, 0), n - 1)
    }
}

proof fn lemma_first_after_range(order: Seq<int>, names: Seq<Seq<char>>, key: Seq<char>, from: int)
    requires
        0 <= from <= order.len(),
    ensures
        from <= first_after(order, names, key, from) <= order.len(),
        forall|q: int|
            from <= q < first_after(order, names, key, from) ==> !chars_less(
                key,
                #[trigger] names[order[q]],
            ),
        first_after(order, names, key, from) < order.len() ==> chars_less(
            key,
            names[order[first_after(order, names, key, from)]],
        ),
    decreases order.len() - from,
{
    if from < order.len() && !chars_less(key, names[order[from]]) {
        lemma_first_after_range(order, names, key, from + 1);
    }
}

/// Whether `order` lists names in non-decreasing order, equal names in
/// increasing position.
pub open spec fn stably_sorted(order: Seq<int>, names: Seq<Seq<char>>) -> bool {
    forall|a: int, b: int|
        0 <= a < b < order.len() ==> !chars_less(names[order[b]], names[order[a]]) && (names[order[a]]
            == names[order[b]] ==> order[a] < order[b])
}

/// Whether `order` holds each of `0..n` exactly once.
pub open spec fn is_permutation(order: Seq<int>, n: nat) -> bool {
    &&& order.len() == n
    &&& forall|a: int| 0 <= a < n ==> 0 <= #[trigger] order[a] < n
    &&& forall|a: int, b: int| 0 <= a < b < n ==> order[a] != order[b]
}

/// Sorting by name lists every entry exactly once, in non-decreasing name
/// order, with entries of equal names in the order they were given.
pub proof fn lemma_sorted_order(names: Seq<Seq<char>>, n: nat)
    requires
        n <= names.len(),
    ensures
        is_permutation(sorted_order(names, n), n),
        stably_sorted(sorted_order(names, n), names),
    decreases n,
{
    if n > 0 {
        let m = (n - 1) as nat;
        lemma_sorted_order(names, m);
        let prev = sorted_order(names, m);
        let key = names[m as int];
        lemma_first_after_range(prev, names, key, 0);
        let p = first_after(prev, names, key, 0);
        let next = prev.insert(p, m as int);
        assert(next == sorted_order(names, n));
        assert forall|a: int| 0 <= a < n implies 0 <= #[trigger] next[a] < n by {
            if a < p {
                assert(next[a] == prev[a]);
            } else if a > p {
                assert(next[a] == prev[a - 1]);
            }
        }
        assert forall|a: int, b: int| 0 <= a < b < n implies next[a] != next[b] by {
            if a < p && b < p {
                assert(next[a] == prev[a] && next[b] == prev[b]);
            } else if a < p && b > p {
                assert(next[a] == prev[a] && next[b] == prev[b - 1]);
            } else if a > p && b > p {
                assert(next[a] == prev[a - 1] && next[b] == prev[b - 1]);
            } else if a == p {
                if b > p {
                    assert(next[b] == prev[b - 1]);
                }
            } else {
                assert(next[a] == prev[a]);
            }
        }
        assert forall|a: int, b: int| 0 <= a < b < next.len() implies !chars_less(
            names[next[b]],
            names[next[a]],
        ) && (names[next[a]] == names[next[b]] ==> next[a] < next[b]) by {
            if a < p && b < p {
                assert(next[a] == prev[a] && next[b] == prev[b]);
            } else if a < p && b == p {
                assert(next[a] == prev[a]);
                assert(!chars_less(key, names[prev[a]]));
                lemma_chars_less_total(key, names[prev[a]]);
            } else if a < p && b > p {
                assert(next[a] == prev[a] && next[b] == prev[b - 1]);
            } else if a == p {
                assert(next[b] == prev[b - 1]);
                assert(chars_less(key, names[prev[p]]));
                if b - 1 > p {
                    lemma_chars_less_total(names[prev[b - 1]], names[prev[p]]);
                    if names[prev[b - 1]] != names[prev[p]] {
                        lemma_chars_less_transitive(key, names[prev[p]], names[prev[b - 1]]);
                    }
                }
                lemma_chars_less_total(key, names[prev[b - 1]]);
            } else {
                assert(next[a] == prev[a - 1] && next[b] == prev[b - 1]);
            }
        }
    }
}

/// The positions of `names`, stably sorted by name (see [`sorted_order`]).
pub fn sort_by_name(names: &Vec<Vec<char>>) -> (order: Vec<usize>)
    ensures
        order@.len() == names@.len(),
        forall|k: int| 0 <= k < order@.len() ==> order@[k] as int == sorted_order(
            crate::text::views(names@),
            names@.len() as nat,
        )[k],
{
    let ghost ns = crate::text::views(names@);
    let mut order: Vec<usize> = Vec::new();
    let mut i: usize = 0;
    while i < names.len()
        invariant
            i <= names@.len(),
            ns == crate::text::views(names@),
            order@.len() == i,
            forall|k: int| 0 <= k < i ==> order@[k] as int == sorted_order(ns, i as nat)[k],
            is_permutation(sorted_order(ns, i as nat), i as nat),
        decreases names@.len() - i,
    {
        let ghost prev = sorted_order(ns, i as nat);
        proof {
            lemma_sorted_order(ns, (i + 1) as nat);
            lemma_first_after_range(prev, ns, ns[i as int], 0);
        }
        let mut p: usize = 0;
        while p < order.len() && !less_chars(names[i].as_slice(), names[order[p]].as_slice())
            invariant
                p <= order@.len(),
                order@.len() == i,
                i < names@.len(),
                ns == crate::text::views(names@),
                forall|k: int| 0 <= k < i ==> order@[k] as int == prev[k],
                is_permutation(prev, i as nat),
                first_after(prev, ns, ns[i as int], 0) == first_after(prev, ns, ns[i as int], p as int),
            decreases order@.len() - p,
        {
            assert(ns[order@[p as int] as int] == names@[order@[p as int] as int]@);
            p = p + 1;
        }
        proof {
            if p < order@.len() {
                assert(ns[order@[p as int] as int] == names@[order@[p as int] as int]@);
            }
        }
        let ghost before = order@;
        order.insert(p, i);
        assert forall|k: int| 0 <= k < i + 1 implies order@[k] as int == sorted_order(
            ns,
            (i + 1) as nat,
        )[k] by {
            assert(sorted_order(ns, (i + 1) as nat) == prev.insert(p as int, i as int));
            if k < p {
                assert(order@[k] == before[k]);
            } else if k > p {
                assert(order@[k] == before[k - 1]);
            }
        }
        i = i + 1;
    }
    order
}


/// A listed folder or file, ready to sort: the name it is shown and
/// sorted by, its path, and its size label (or empty).
#[derive(Debug, Clone, PartialEq, Eq)]
pub struct Listed {
    /// The name shown, and sorted by.
    pub name: String,
    /// The full path.
    pub path: String,
    /// The size label, or empty.
    pub size_label: String,
}

/// The value of a [`Listed`] entry.
pub struct ListedView {
    /// The name.
    pub name: Seq<char>,
    /// The path.
    pub path: Seq<char>,
    /// The size label.
    pub size_label: Seq<char>,
}

impl View for Listed {
    type V = ListedView;

    open spec fn view(&self) -> ListedView {
        ListedView { name: self.name@, path: self.path@, size_label: self.size_label@ }
    }
}

/// The values of listed entries.
pub open spec fn listed_views(items: Seq<Listed>) -> Seq<ListedView> {
    items.map_values(|l: Listed| l@)
}

/// The names of listed entries.
pub open spec fn listed_names(items: Seq<ListedView>) -> Seq<Seq<char>> {
    items.map_values(|l: ListedView| l.name)
}

/// `items` stably sorted by name.
pub open spec fn sorted_listing(items: Seq<ListedView>) -> Seq<ListedView> {
    Seq::new(items.len(), |k: int| items[sorted_order(listed_names(items), items.len())[k]])
}

/// A copy of a listed entry.
fn copy_listed(l: &Listed) -> (c: Listed)
    ensures
        c@ == l@,
{
    Listed { name: l.name.clone(), path: l.path.clone(), size_label: l.size_label.clone() }
}

/// `items` stably sorted by name (see [`sorted_order`]).
pub fn sort_listed(items: &Vec<Listed>) -> (sorted: Vec<Listed>)
    ensures
        listed_views(sorted@) == sorted_listing(listed_views(items@)),
{
    let ghost iv = listed_views(items@);
    let mut names: Vec<Vec<char>> = Vec::new();
    let mut i: usize = 0;
    while i < items.len()
        invariant
            i <= items@.len(),
            iv == listed_views(items@),
            names@.len() == i,
            forall|k: int| 0 <= k < i ==> (#[trigger] names@[k])@ == items@[k].name@,
        decreases items@.len() - i,
    {
        names.push(chars_of(items[i].name.as_str()));
        i = i + 1;
    }
    assert(crate::text::views(names@) =~= listed_names(iv));
    let order = sort_by_name(&names);
    proof {
        lemma_sorted_order(listed_names(iv), iv.len());
    }
    let ghost perm = sorted_order(listed_names(iv), iv.len());
    let mut sorted: Vec<Listed> = Vec::new();
    let mut k: usize = 0;
    while k < order.len()
        invariant
            k <= order@.len(),
            order@.len() == items@.len(),
            iv == listed_views(items@),
            perm == sorted_order(listed_names(iv), iv.len()),
            is_permutation(perm, iv.len()),
            forall|q: int| 0 <= q < order@.len() ==> order@[q] as int == perm[q],
            listed_views(sorted@) == sorted_listing(iv).take(k as int),
        decreases order@.len() - k,
    {
        let j = order[k];
        assert(0 <= perm[k as int] < iv.len());
        let c = copy_listed(&items[j]);
        assert(sorted_listing(iv)[k as int] == iv[j as int]);
        assert(iv[j as int] == items@[j as int]@);
        let ghost before = sorted@;
        sorted.push(c);
        assert(listed_views(sorted@) =~= listed_views(before).push(c@));
        assert(listed_views(sorted@) =~= sorted_listing(iv).take(k + 1));
        k = k + 1;
    }
    assert(sorted_listing(iv).take(order@.len() as int) =~= sorted_listing(iv));
    sorted
}

} // verus!
