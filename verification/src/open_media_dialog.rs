//! The Open dialog: a folder's subfolders and video or audio files, sorted
//! by name, with size labels, an "up" row, the first file pre-selected,
//! and the same-name subtitle file to look for once a file is opened.
use vstd::prelude::*;
use crate::listing::{
    extension_of_name, file_name_of, join_path, opt_view, parent_of, path_extension,
    path_extension_of, path_file_name, path_join, path_parent, sort_by_name, sorted_order,
    stem_of_name, name_stem, DirItem, FileListRow, is_permutation, lemma_sorted_order,
    FileListRowView, row_views, is_selected_index, selected_at,
};
use crate::hebrew_word_merge::chars_equal;
use crate::text::{
    append_chars, append_decimal, append_str, chars_of, decimal, decimal_chars_wide, digit,
    ascii_lower, digit_char, eq_ignore_ascii_case, equal_ignore_ascii_case, string_from_chars, views,
};

verus! {

/// Which kind of media the dialog lists.
#[derive(Debug, Clone, Copy, PartialEq, Eq, Structural)]
pub enum MediaKind {
    /// Video files.
    Video,
    /// Audio recordings.
    Audio,
}

/// Whether `ext` is one of `kind`'s file extensions, ignoring ASCII case:
/// mp4, mkv, webm, mov and avi for video; wav for audio.
pub open spec fn is_kind_extension(ext: Seq<char>, kind: MediaKind) -> bool {
    match kind {
        MediaKind::Video => eq_ignore_ascii_case(ext, "mp4"@) || eq_ignore_ascii_case(ext, "mkv"@)
            || eq_ignore_ascii_case(ext, "webm"@) || eq_ignore_ascii_case(ext, "mov"@)
            || eq_ignore_ascii_case(ext, "avi"@),
        MediaKind::Audio => eq_ignore_ascii_case(ext, "wav"@),
    }
}

/// Whether the file at `path` is of media kind `kind`, by extension.
pub open spec fn is_media_path(path: Seq<char>, kind: MediaKind) -> bool {
    match path_extension(path) {
        Some(ext) => is_kind_extension(ext, kind),
        None => false,
    }
}

/// Whether `ext` equals `word`, ignoring ASCII case.
pub fn ext_is(ext: &Vec<char>, word: &str) -> (b: bool)
    ensures
        b == eq_ignore_ascii_case(ext@, word@),
{
    let w = chars_of(word);
    equal_ignore_ascii_case(ext.as_slice(), w.as_slice())
}

impl MediaKind {
    /// Whether `ext` is one of this kind's file extensions.
    pub fn has_extension(self, ext: &Vec<char>) -> (b: bool)
        ensures
            b == is_kind_extension(ext@, self),
    {
        match self {
            MediaKind::Video => ext_is(ext, "mp4") || ext_is(ext, "mkv") || ext_is(ext, "webm")
                || ext_is(ext, "mov") || ext_is(ext, "avi"),
            MediaKind::Audio => ext_is(ext, "wav"),
        }
    }
}

/// Whether the file at `path` is of media kind `kind`, by extension
/// (ignoring ASCII case).
pub fn is_media_file(path: &str, kind: MediaKind) -> (b: bool)
    ensures
        b == is_media_path(path@, kind),
{
    match path_extension_of(path) {
        Some(ext) => kind.has_extension(&ext),
        None => false,
    }
}

/// The power of two `2^53`, where `f64` stops holding every integer.
pub open spec fn f64_mantissa_limit() -> nat {
    0x20_0000_0000_0000
}

/// The smallest power of two from `p` on (doubling) by which `n` divides
/// to below `2^53`: the spacing of `f64` values around `n`.
pub open spec fn f64_spacing(n: nat, p: nat) -> nat
    decreases 2 * n + 2 - p,
{
    if p == 0 || p > n || n / p < f64_mantissa_limit() {
        p
    } else {
        f64_spacing(n, 2 * p)
    }
}

/// `a / d` rounded to the nearest integer, ties to even.
pub open spec fn round_half_even(a: nat, d: nat) -> nat {
    let q = a / d;
    let r = a % d;
    if 2 * r > d || (2 * r == d && q % 2 == 1) {
        q + 1
    } else {
        q
    }
}

/// The integer `n` as converted to the nearest `f64` (ties to even).
pub open spec fn f64_of(n: nat) -> nat {
    let u = f64_spacing(n, 1);
    round_half_even(n, u) * u
}

/// A byte count as the dialog's size column shows it: whole bytes below
/// 1 KiB ("512 B"), whole KiB below 1 MiB ("2 KB"), whole MiB below 1 GiB
/// ("340 MB"), and GiB with one decimal ("2.1 GB"); the byte count is
/// taken as the nearest `f64` and each quotient rounded to nearest, ties
/// to even, as float formatting does.
pub open spec fn file_size_text(bytes: nat) -> Seq<char> {
    let v = f64_of(bytes);
    if v >= 0x4000_0000 {
        let t = round_half_even(v * 10, 0x4000_0000);
        decimal(t / 10) + seq!['.', digit_char(t % 10)] + " GB"@
    } else if v >= 0x10_0000 {
        decimal(round_half_even(v, 0x10_0000)) + " MB"@
    } else if v >= 0x400 {
        decimal(round_half_even(v, 0x400)) + " KB"@
    } else {
        decimal(v) + " B"@
    }
}

/// The spacing found from `p` on is at least `p`, and, when it had to
/// grow past `p`, half of it still left `n` at `2^53` or more.
proof fn lemma_spacing_bounds(n: nat, p: nat)
    requires
        p >= 1,
    ensures
        f64_spacing(n, p) >= p,
        f64_spacing(n, p) == p || (f64_spacing(n, p) >= 2 && n >= f64_mantissa_limit() * (
        f64_spacing(n, p) / 2)),
    decreases 2 * n + 2 - p,
{
    if p > n || n / p < f64_mantissa_limit() {
    } else {
        lemma_spacing_bounds(n, 2 * p);
        let u = f64_spacing(n, 2 * p);
        if u == 2 * p {
            assert(n >= f64_mantissa_limit() * p) by (nonlinear_arith)
                requires
                    p >= 1,
                    n / p >= f64_mantissa_limit(),
            ;
            assert(u / 2 == p);
        }
    }
}

/// Rounding `a / d` to nearest gives at least the floor.
proof fn lemma_round_at_least_floor(a: nat, d: nat)
    requires
        d > 0,
    ensures
        round_half_even(a, d) >= a / d,
{
}

/// Byte counts below `2^53` convert to `f64` exactly, and a count of
/// 1 GiB or more stays at 1 GiB or more.
proof fn lemma_f64_of_bytes(n: nat)
    ensures
        n < f64_mantissa_limit() ==> f64_of(n) == n,
        n >= 0x4000_0000 ==> f64_of(n) >= 0x4000_0000,
{
    lemma_spacing_bounds(n, 1);
    let u = f64_spacing(n, 1);
    if u == 1 {
        assert(n / 1 == n && n % 1 == 0);
        assert(round_half_even(n, 1) == n);
    } else if n >= 0x4000_0000 {
        lemma_round_at_least_floor(n, u);
        let q = n / u;
        assert(q * u >= 0x4000_0000) by (nonlinear_arith)
            requires
                u >= 2,
                n >= f64_mantissa_limit() * (u / 2),
                q == n / u,
                f64_mantissa_limit() == 0x20_0000_0000_0000,
        {
            assert(n >= f64_mantissa_limit());
            assert(q * u > n - u);
            assert(u <= 2 * (u / 2) + 1);
            assert(f64_mantissa_limit() * (u / 2) >= 0x40_0000_0000 * (u / 2) + 0x40_0000_0000 * (u / 2));
        }
        assert(round_half_even(n, u) * u >= q * u) by (nonlinear_arith)
            requires
                round_half_even(n, u) >= q,
                u >= 2,
        ;
    }
    if n < f64_mantissa_limit() {
        assert(n / 1 < f64_mantissa_limit());
        assert(f64_spacing(n, 1) == 1);
        assert(round_half_even(n, 1) == n);
    }
}

/// The size column's unit follows the byte count: "B" with the exact count
/// below 1 KiB, whole "KB" below 1 MiB, whole "MB" below 1 GiB, and "GB"
/// with one decimal from 1 GiB on.
pub proof fn lemma_file_size_units(bytes: nat)
    ensures
        bytes < 0x400 ==> file_size_text(bytes) == decimal(bytes) + " B"@,
        0x400 <= bytes < 0x10_0000 ==> file_size_text(bytes) == decimal(
            round_half_even(bytes, 0x400),
        ) + " KB"@,
        0x10_0000 <= bytes < 0x4000_0000 ==> file_size_text(bytes) == decimal(
            round_half_even(bytes, 0x10_0000),
        ) + " MB"@,
        bytes >= 0x4000_0000 ==> ({
            let t = round_half_even(f64_of(bytes) * 10, 0x4000_0000);
            file_size_text(bytes) == decimal(t / 10) + seq!['.', digit_char(t % 10)] + " GB"@
        }),
{
    lemma_f64_of_bytes(bytes);
}

/// `a / d` rounded to nearest, ties to even.
fn round_half_even_div(a: u128, d: u128) -> (q: u128)
    requires
        d > 0,
        a / d < u128::MAX,
    ensures
        q == round_half_even(a as nat, d as nat),
{
    let q = a / d;
    let r = a % d;
    if r > d - r || (r == d - r && q % 2 == 1) {
        q + 1
    } else {
        q
    }
}

/// The integer `n` as the nearest `f64` would hold it.
fn nearest_f64(n: u64) -> (v: u128)
    ensures
        v == f64_of(n as nat),
        v <= 3 * (n as nat) + 1,
{
    let m = n as u128;
    let mut p: u128 = 1;
    while p <= m && m / p >= 0x20_0000_0000_0000
        invariant
            1 <= p <= 2 * (m as nat) + 1,
            m == n as u128,
            f64_spacing(m as nat, 1) == f64_spacing(m as nat, p as nat),
        decreases 2 * m + 2 - p,
    {
        p = p * 2;
    }
    let q = round_half_even_div(m, p);
    proof {
        assert(q <= m / p + 1);
        assert((m / p) * p <= m) by (nonlinear_arith)
            requires
                p >= 1,
        ;
        assert(q * p <= (m / p + 1) * p) by (nonlinear_arith)
            requires
                q <= m / p + 1,
                p >= 1,
        ;
        assert((m / p + 1) * p == (m / p) * p + p) by (nonlinear_arith);
    }
    q * p
}

/// A byte count as a size label (see [`file_size_text`]), e.g. "340 MB".
pub fn format_file_size(bytes: u64) -> (label: String)
    ensures
        label@ == file_size_text(bytes as nat),
{
    let v = nearest_f64(bytes);
    let mut out: Vec<char> = Vec::new();
    if v >= 0x4000_0000 {
        let t = round_half_even_div(v * 10, 0x4000_0000);
        let whole = decimal_chars_wide(t / 10);
        append_chars(&mut out, whole.as_slice());
        out.push('.');
        out.push(digit((t % 10) as u64));
        append_str(&mut out, " GB");
        assert(out@ =~= file_size_text(bytes as nat));
    } else if v >= 0x10_0000 {
        let q = round_half_even_div(v, 0x10_0000);
        let d = decimal_chars_wide(q);
        append_chars(&mut out, d.as_slice());
        append_str(&mut out, " MB");
    } else if v >= 0x400 {
        let q = round_half_even_div(v, 0x400);
        let d = decimal_chars_wide(q);
        append_chars(&mut out, d.as_slice());
        append_str(&mut out, " KB");
    } else {
        let d = decimal_chars_wide(v);
        append_chars(&mut out, d.as_slice());
        append_str(&mut out, " B");
    }
    string_from_chars(out.as_slice())
}


/// A file of the listed kind, which can be selected and opened.
#[derive(Debug, Clone, PartialEq, Eq)]
pub struct MediaFileEntry {
    /// The file's full path.
    pub path: String,
    /// Its file name, as shown.
    pub name: String,
    /// Its size label (see [`format_file_size`]), or empty when the size
    /// could not be read.
    pub size_label: String,
}

/// One row of the Open dialog's listing.
#[derive(Debug, Clone, PartialEq, Eq)]
pub enum FolderEntry {
    /// The listed folder's parent.
    Up(String),
    /// A subfolder, to navigate into.
    Folder { path: String, name: String },
    /// A file of the listed kind.
    File(MediaFileEntry),
}

/// The value of a [`FolderEntry`].
pub enum FolderEntryView {
    /// The parent folder's path.
    Up(Seq<char>),
    /// A subfolder's path and name.
    Folder { path: Seq<char>, name: Seq<char> },
    /// A file's path, name and size label.
    File { path: Seq<char>, name: Seq<char>, size_label: Seq<char> },
}

impl View for FolderEntry {
    type V = FolderEntryView;

    open spec fn view(&self) -> FolderEntryView {
        match *self {
            FolderEntry::Up(p) => FolderEntryView::Up(p@),
            FolderEntry::Folder { path, name } => FolderEntryView::Folder { path: path@, name: name@ },
            FolderEntry::File(f) => FolderEntryView::File {
                path: f.path@,
                name: f.name@,
                size_label: f.size_label@,
            },
        }
    }
}

/// The values of a sequence of entries.
pub open spec fn entry_views(entries: Seq<FolderEntry>) -> Seq<FolderEntryView> {
    entries.map_values(|e: FolderEntry| e@)
}

/// `s` reordered by `order`.
pub open spec fn permuted<A>(s: Seq<A>, order: Seq<int>) -> Seq<A> {
    Seq::new(order.len(), |k: int| s[order[k]])
}

/// Whether a listed item is a subfolder (with a name).
pub open spec fn is_listed_folder(item: DirItem) -> bool {
    item.is_dir && path_file_name(item.path@) is Some
}

/// Whether a listed item is a file of kind `kind` (with a name).
pub open spec fn is_listed_file(item: DirItem, kind: MediaKind) -> bool {
    !item.is_dir && item.is_file && is_media_path(item.path@, kind) && path_file_name(item.path@) is Some
}

/// The name of a listed item.
pub open spec fn item_name(item: DirItem) -> Seq<char> {
    path_file_name(item.path@)->0
}

/// The size label of a listed file.
pub open spec fn item_size_label(item: DirItem) -> Seq<char> {
    match item.size {
        Some(bytes) => file_size_text(bytes as nat),
        None => Seq::empty(),
    }
}

/// The listed subfolders (those with a name), in listing order.
pub open spec fn folders_of(items: Seq<DirItem>) -> Seq<DirItem> {
    items.filter(|it: DirItem| is_listed_folder(it))
}

/// The listed files of kind `kind` (with a name), in listing order.
pub open spec fn files_of(items: Seq<DirItem>, kind: MediaKind) -> Seq<DirItem> {
    items.filter(|it: DirItem| is_listed_file(it, kind))
}

/// The names of listed items.
pub open spec fn names_of(items: Seq<DirItem>) -> Seq<Seq<char>> {
    items.map_values(|it: DirItem| item_name(it))
}

/// The rows of listed subfolders.
pub open spec fn folder_rows(items: Seq<DirItem>) -> Seq<FolderEntryView> {
    items.map_values(|it: DirItem| FolderEntryView::Folder { path: it.path@, name: item_name(it) })
}

/// The rows of listed files.
pub open spec fn file_rows(items: Seq<DirItem>) -> Seq<FolderEntryView> {
    items.map_values(
        |it: DirItem|
            FolderEntryView::File {
                path: it.path@,
                name: item_name(it),
                size_label: item_size_label(it),
            },
    )
}

/// `rows` stably sorted by the names of `items`.
pub open spec fn sorted_rows(rows: Seq<FolderEntryView>, items: Seq<DirItem>) -> Seq<FolderEntryView> {
    permuted(rows, sorted_order(names_of(items), items.len()))
}

/// The up row for `folder`, if it has a parent.
pub open spec fn up_rows(folder: Seq<char>) -> Seq<FolderEntryView> {
    match path_parent(folder) {
        Some(p) => seq![FolderEntryView::Up(p)],
        None => Seq::empty(),
    }
}

/// The rows of the Open dialog for `folder` of kind `kind`, given what
/// reading the folder gave (`None` when it could not be read): an up row
/// first when the folder has a parent; then the subfolders, then the files
/// of that kind, each group stably sorted by name.
pub open spec fn media_listing(folder: Seq<char>, listing: Option<Seq<DirItem>>, kind: MediaKind) -> Seq<
    FolderEntryView,
> {
    match listing {
        None => up_rows(folder),
        Some(items) => up_rows(folder) + sorted_rows(folder_rows(folders_of(items)), folders_of(items))
            + sorted_rows(file_rows(files_of(items, kind)), files_of(items, kind)),
    }
}

proof fn lemma_filter_step(all: Seq<DirItem>, i: int, kind: MediaKind)
    requires
        0 <= i < all.len(),
    ensures
        folders_of(all.take(i + 1)) == if is_listed_folder(all[i]) {
            folders_of(all.take(i)).push(all[i])
        } else {
            folders_of(all.take(i))
        },
        files_of(all.take(i + 1), kind) == if is_listed_file(all[i], kind) {
            files_of(all.take(i), kind).push(all[i])
        } else {
            files_of(all.take(i), kind)
        },
{
    reveal(Seq::filter);
    assert(all.take(i + 1).drop_last() =~= all.take(i));
}

/// The listed subfolders and files of kind `kind` among `items`, in
/// listing order: for subfolders their names and (name, path); for files
/// their names and entries.
fn collect_items(items: &Vec<DirItem>, kind: MediaKind) -> (r: (
    Vec<Vec<char>>,
    Vec<(String, String)>,
    Vec<Vec<char>>,
    Vec<MediaFileEntry>,
))
    ensures
        views(r.0@) == names_of(folders_of(items@)),
        r.1@.len() == folders_of(items@).len(),
        forall|k: int|
            0 <= k < r.1@.len() ==> (#[trigger] r.1@[k]).0@ == item_name(folders_of(items@)[k])
                && r.1@[k].1@ == folders_of(items@)[k].path@,
        views(r.2@) == names_of(files_of(items@, kind)),
        r.3@.len() == files_of(items@, kind).len(),
        forall|k: int|
            0 <= k < r.3@.len() ==> {
                let it = files_of(items@, kind)[k];
                &&& (#[trigger] r.3@[k]).name@ == item_name(it)
                &&& r.3@[k].path@ == it.path@
                &&& r.3@[k].size_label@ == item_size_label(it)
            },
{
    let ghost all = items@;
    let mut dir_names: Vec<Vec<char>> = Vec::new();
    let mut dir_items: Vec<(String, String)> = Vec::new();
    let mut file_names: Vec<Vec<char>> = Vec::new();
    let mut file_items: Vec<MediaFileEntry> = Vec::new();
    let mut i: usize = 0;
    assert(all.take(0) =~= Seq::<DirItem>::empty());
    assert(folders_of(all.take(0)) =~= Seq::<DirItem>::empty()) by {
        reveal(Seq::filter);
    }
    assert(files_of(all.take(0), kind) =~= Seq::<DirItem>::empty()) by {
        reveal(Seq::filter);
    }
    while i < items.len()
        invariant
            i <= all.len(),
            all == items@,
            views(dir_names@) == names_of(folders_of(all.take(i as int))),
            dir_items@.len() == folders_of(all.take(i as int)).len(),
            forall|k: int|
                0 <= k < dir_items@.len() ==> (#[trigger] dir_items@[k]).0@ == item_name(
                    folders_of(all.take(i as int))[k],
                ) && dir_items@[k].1@ == folders_of(all.take(i as int))[k].path@,
            views(file_names@) == names_of(files_of(all.take(i as int), kind)),
            file_items@.len() == files_of(all.take(i as int), kind).len(),
            forall|k: int|
                0 <= k < file_items@.len() ==> {
                    let it = files_of(all.take(i as int), kind)[k];
                    &&& (#[trigger] file_items@[k]).name@ == item_name(it)
                    &&& file_items@[k].path@ == it.path@
                    &&& file_items@[k].size_label@ == item_size_label(it)
                },
        decreases all.len() - i,
    {
        proof {
            lemma_filter_step(all, i as int, kind);
        }
        let ghost pre_dirs = folders_of(all.take(i as int));
        let ghost pre_files = files_of(all.take(i as int), kind);
        let item = &items[i];
        match file_name_of(item.path.as_str()) {
            Some(name) => {
                if item.is_dir {
                    dir_names.push(chars_of(name.as_str()));
                    dir_items.push((name, item.path.clone()));
                    assert(names_of(pre_dirs.push(all[i as int])) =~= names_of(pre_dirs).push(
                        item_name(all[i as int]),
                    ));
                    assert(views(dir_names@) =~= names_of(pre_dirs).push(item_name(all[i as int])));
                } else if item.is_file && is_media_file(item.path.as_str(), kind) {
                    let size_label = match item.size {
                        Some(bytes) => format_file_size(bytes),
                        None => String::new(),
                    };
                    file_names.push(chars_of(name.as_str()));
                    file_items.push(MediaFileEntry { path: item.path.clone(), name, size_label });
                    assert(names_of(pre_files.push(all[i as int])) =~= names_of(pre_files).push(
                        item_name(all[i as int]),
                    ));
                    assert(views(file_names@) =~= names_of(pre_files).push(item_name(all[i as int])));
                }
            },
            None => {},
        }
        i = i + 1;
    }
    assert(all.take(all.len() as int) =~= all);
    (dir_names, dir_items, file_names, file_items)
}

/// Appends the subfolder rows of `dirs`, stably sorted by name.
fn push_sorted_folders(
    entries: &mut Vec<FolderEntry>,
    names: &Vec<Vec<char>>,
    dir_items: &Vec<(String, String)>,
    Ghost(dirs): Ghost<Seq<DirItem>>,
)
    requires
        views(names@) == names_of(dirs),
        dir_items@.len() == dirs.len(),
        forall|k: int|
            0 <= k < dir_items@.len() ==> (#[trigger] dir_items@[k]).0@ == item_name(dirs[k])
                && dir_items@[k].1@ == dirs[k].path@,
    ensures
        entry_views(final(entries)@) == entry_views(old(entries)@) + sorted_rows(folder_rows(dirs), dirs),
{
    assert(views(names@).len() == names@.len());
    assert(names_of(dirs).len() == dirs.len());
    let order = sort_by_name(names);
    let ghost sorted = sorted_order(names_of(dirs), dirs.len());
    proof {
        lemma_sorted_order(names_of(dirs), dirs.len());
    }
    let ghost base = entry_views(entries@);
    let mut k: usize = 0;
    while k < order.len()
        invariant
            k <= order@.len(),
            order@.len() == dirs.len(),
            dir_items@.len() == dirs.len(),
            views(names@) == names_of(dirs),
            forall|q: int| 0 <= q < order@.len() ==> order@[q] as int == sorted[q],
            sorted == sorted_order(names_of(dirs), dirs.len()),
            is_permutation(sorted, dirs.len()),
            forall|q: int|
                0 <= q < dir_items@.len() ==> (#[trigger] dir_items@[q]).0@ == item_name(dirs[q])
                    && dir_items@[q].1@ == dirs[q].path@,
            entry_views(entries@) == base + sorted_rows(folder_rows(dirs), dirs).take(k as int),
        decreases order@.len() - k,
    {
        let j = order[k];
        assert(0 <= sorted[k as int] < dirs.len());
        let ghost before = entries@;
        entries.push(FolderEntry::Folder { path: dir_items[j].1.clone(), name: dir_items[j].0.clone() });
        assert(sorted_rows(folder_rows(dirs), dirs).take(k + 1) =~= sorted_rows(
            folder_rows(dirs),
            dirs,
        ).take(k as int).push(folder_rows(dirs)[j as int]));
        assert(entry_views(entries@) =~= entry_views(before).push(folder_rows(dirs)[j as int]));
        k = k + 1;
    }
    assert(sorted_rows(folder_rows(dirs), dirs).take(order@.len() as int) =~= sorted_rows(
        folder_rows(dirs),
        dirs,
    ));
}

/// Appends the file rows of `files`, stably sorted by name.
fn push_sorted_files(
    entries: &mut Vec<FolderEntry>,
    names: &Vec<Vec<char>>,
    file_items: &Vec<MediaFileEntry>,
    Ghost(files): Ghost<Seq<DirItem>>,
)
    requires
        views(names@) == names_of(files),
        file_items@.len() == files.len(),
        forall|k: int|
            0 <= k < file_items@.len() ==> {
                let it = files[k];
                &&& (#[trigger] file_items@[k]).name@ == item_name(it)
                &&& file_items@[k].path@ == it.path@
                &&& file_items@[k].size_label@ == item_size_label(it)
            },
    ensures
        entry_views(final(entries)@) == entry_views(old(entries)@) + sorted_rows(file_rows(files), files),
{
    assert(views(names@).len() == names@.len());
    assert(names_of(files).len() == files.len());
    let order = sort_by_name(names);
    let ghost sorted = sorted_order(names_of(files), files.len());
    proof {
        lemma_sorted_order(names_of(files), files.len());
    }
    let ghost base = entry_views(entries@);
    let mut k: usize = 0;
    while k < order.len()
        invariant
            k <= order@.len(),
            order@.len() == files.len(),
            file_items@.len() == files.len(),
            views(names@) == names_of(files),
            forall|q: int| 0 <= q < order@.len() ==> order@[q] as int == sorted[q],
            sorted == sorted_order(names_of(files), files.len()),
            is_permutation(sorted, files.len()),
            forall|q: int|
                0 <= q < file_items@.len() ==> {
                    let it = files[q];
                    &&& (#[trigger] file_items@[q]).name@ == item_name(it)
                    &&& file_items@[q].path@ == it.path@
                    &&& file_items@[q].size_label@ == item_size_label(it)
                },
            entry_views(entries@) == base + sorted_rows(file_rows(files), files).take(k as int),
        decreases order@.len() - k,
    {
        let j = order[k];
        assert(0 <= sorted[k as int] < files.len());
        let ghost before = entries@;
        let f = &file_items[j];
        entries.push(
            FolderEntry::File(
                MediaFileEntry {
                    path: f.path.clone(),
                    name: f.name.clone(),
                    size_label: f.size_label.clone(),
                },
            ),
        );
        assert(sorted_rows(file_rows(files), files).take(k + 1) =~= sorted_rows(
            file_rows(files),
            files,
        ).take(k as int).push(file_rows(files)[j as int]));
        assert(entry_views(entries@) =~= entry_views(before).push(file_rows(files)[j as int]));
        k = k + 1;
    }
    assert(sorted_rows(file_rows(files), files).take(order@.len() as int) =~= sorted_rows(
        file_rows(files),
        files,
    ));
}

/// The Open dialog's rows for `folder` (see [`media_listing`]), given the
/// folder's items as read from disk, or `None` when it could not be read.
pub fn list_folder_entries(folder: &str, listing: Option<Vec<DirItem>>, kind: MediaKind) -> (entries:
    Vec<FolderEntry>)
    ensures
        entry_views(entries@) == media_listing(
            folder@,
            match listing {
                Some(v) => Some(v@),
                None => None,
            },
            kind,
        ),
{
    let mut entries: Vec<FolderEntry> = Vec::new();
    match parent_of(folder) {
        Some(p) => {
            entries.push(FolderEntry::Up(p));
        },
        None => {},
    }
    assert(entry_views(entries@) =~= up_rows(folder@));
    match listing {
        None => entries,
        Some(items) => {
            let (dir_names, dir_items, file_names, file_items) = collect_items(&items, kind);
            push_sorted_folders(&mut entries, &dir_names, &dir_items, Ghost(folders_of(items@)));
            push_sorted_files(&mut entries, &file_names, &file_items, Ghost(files_of(items@, kind)));
            entries
        },
    }
}


/// The subtitle file to look for next to the media file `media_path`: in
/// the same folder, the media's file stem followed by `.srt` (`None` when
/// the path has no parent or no file name).
pub open spec fn subtitle_candidate(media_path: Seq<char>) -> Option<Seq<char>> {
    match (path_parent(media_path), path_file_name(media_path)) {
        (Some(parent), Some(name)) => Some(
            path_join(parent, name_stem(name) + ".srt"@),
        ),
        _ => None,
    }
}

/// The same-name `.srt` path next to `media_path` (e.g. `der_anruf.mp4`
/// gives `der_anruf.srt`, `movie.en.mp4` gives `movie.en.srt`), to be used
/// if such a file exists.
pub fn subtitle_candidate_path(media_path: &str) -> (candidate: Option<String>)
    ensures
        opt_view(candidate) == subtitle_candidate(media_path@),
{
    let parent = match parent_of(media_path) {
        Some(p) => p,
        None => {
            return None;
        },
    };
    let name = match file_name_of(media_path) {
        Some(n) => n,
        None => {
            return None;
        },
    };
    let cs = chars_of(name.as_str());
    let mut stem = stem_of_name(cs.as_slice());
    append_str(&mut stem, ".srt");
    let file = string_from_chars(stem.as_slice());
    Some(join_path(parent.as_str(), file.as_str()))
}

/// Whether `listing` holds `path` as a regular file.
pub open spec fn lists_file(listing: Seq<DirItem>, path: Seq<char>) -> bool {
    exists|k: int| 0 <= k < listing.len() && (#[trigger] listing[k]).is_file && listing[k].path@ == path
}

/// The subtitle file that goes with `media_path`: its same-name `.srt`
/// candidate, when the listing of the media's folder holds it as a file.
pub open spec fn matching_subtitle(media_path: Seq<char>, listing: Option<Seq<DirItem>>) -> Option<
    Seq<char>,
> {
    match (subtitle_candidate(media_path), listing) {
        (Some(c), Some(items)) => if lists_file(items, c) {
            Some(c)
        } else {
            None
        },
        _ => None,
    }
}

/// The subtitle file to load with `media_path` (see [`matching_subtitle`]),
/// given the listing of the media's folder (`None` when it could not be
/// read).
pub fn matching_subtitle_path(media_path: &str, folder_listing: Option<Vec<DirItem>>) -> (found:
    Option<String>)
    ensures
        opt_view(found) == matching_subtitle(
            media_path@,
            match folder_listing {
                Some(v) => Some(v@),
                None => None,
            },
        ),
{
    let candidate = match subtitle_candidate_path(media_path) {
        Some(c) => c,
        None => {
            return None;
        },
    };
    let items = match folder_listing {
        Some(v) => v,
        None => {
            return None;
        },
    };
    let cc = chars_of(candidate.as_str());
    let mut k: usize = 0;
    while k < items.len()
        invariant
            k <= items@.len(),
            cc@ == candidate@,
            subtitle_candidate(media_path@) == Some(candidate@),
            folder_listing == Some(items),
            forall|j: int|
                0 <= j < k ==> !((#[trigger] items@[j]).is_file && items@[j].path@ == candidate@),
        decreases items@.len() - k,
    {
        if items[k].is_file {
            let pc = chars_of(items[k].path.as_str());
            if chars_equal(pc.as_slice(), cc.as_slice()) {
                assert(lists_file(items@, candidate@) && items@[k as int].is_file);
                return Some(candidate);
            }
        }
        k = k + 1;
    }
    None
}

/// The position of the first file entry, or -1 when there is none (or it
/// lies beyond `i32`).
pub open spec fn first_file_position(entries: Seq<FolderEntryView>) -> int {
    if exists|k: int| 0 <= k < entries.len() && (#[trigger] entries[k]) is File {
        let k = choose|k: int|
            0 <= k < entries.len() && (#[trigger] entries[k]) is File && forall|j: int|
                0 <= j < k ==> !(entries[j] is File);
        if k <= i32::MAX {
            k
        } else {
            -1
        }
    } else {
        -1
    }
}

/// The index of the first file entry, or -1 when there is none: the row
/// the dialog pre-selects.
pub fn first_file_index(entries: &[FolderEntry]) -> (index: i32)
    ensures
        index == first_file_position(entry_views(entries@)),
{
    let ghost ev = entry_views(entries@);
    let mut k: usize = 0;
    while k < entries.len()
        invariant
            k <= entries@.len(),
            ev == entry_views(entries@),
            forall|j: int| 0 <= j < k ==> !(#[trigger] ev[j] is File),
        decreases entries@.len() - k,
    {
        match &entries[k] {
            FolderEntry::File(_) => {
                assert(ev[k as int] is File);
                assert(forall|j: int| 0 <= j < k ==> !(ev[j] is File));
                let ghost chosen = choose|q: int|
                    0 <= q < ev.len() && (#[trigger] ev[q]) is File && forall|j: int|
                        0 <= j < q ==> !(ev[j] is File);
                proof {
                    if chosen != k {
                        if chosen < k {
                            assert(!(ev[chosen] is File));
                        } else {
                            assert(!(ev[k as int] is File));
                        }
                    }
                }
                if k <= 0x7fff_ffff {
                    return k as i32;
                } else {
                    return -1;
                }
            },
            _ => {},
        }
        k = k + 1;
    }
    -1
}

/// The row of one entry: the up row and subfolders navigate ("⬆ .. (up)",
/// "name/"), files show their size and are selected when at `selected`.
pub open spec fn row_of(e: FolderEntryView, index: int, selected: i32) -> FileListRowView {
    match e {
        FolderEntryView::Up(_) => FileListRowView {
            name: "⬆ .. (up)"@,
            size_label: Seq::empty(),
            is_selected: false,
            is_navigable: true,
        },
        FolderEntryView::Folder { name, .. } => FileListRowView {
            name: name + seq!['/'],
            size_label: Seq::empty(),
            is_selected: false,
            is_navigable: true,
        },
        FolderEntryView::File { name, size_label, .. } => FileListRowView {
            name,
            size_label,
            is_selected: is_selected_index(index, selected),
            is_navigable: false,
        },
    }
}

/// The dialog's rows for `entries`, the file at `selected_index` (if any)
/// marked selected.
pub fn dialog_rows(entries: &[FolderEntry], selected_index: i32) -> (rows: Vec<FileListRow>)
    ensures
        rows@.len() == entries@.len(),
        forall|k: int|
            0 <= k < rows@.len() ==> (#[trigger] rows@[k])@ == row_of(entries@[k]@, k, selected_index),
{
    let mut rows: Vec<FileListRow> = Vec::new();
    let mut k: usize = 0;
    while k < entries.len()
        invariant
            k <= entries@.len(),
            rows@.len() == k,
            forall|q: int|
                0 <= q < k ==> (#[trigger] rows@[q])@ == row_of(entries@[q]@, q, selected_index),
        decreases entries@.len() - k,
    {
        let row = match &entries[k] {
            FolderEntry::Up(_) => FileListRow {
                name: String::from_str("⬆ .. (up)"),
                size_label: String::new(),
                is_selected: false,
                is_navigable: true,
            },
            FolderEntry::Folder { name, .. } => {
                let mut v = chars_of(name.as_str());
                v.push('/');
                assert(v@ =~= name@ + seq!['/']);
                FileListRow {
                    name: string_from_chars(v.as_slice()),
                    size_label: String::new(),
                    is_selected: false,
                    is_navigable: true,
                }
            },
            FolderEntry::File(f) => FileListRow {
                name: f.name.clone(),
                size_label: f.size_label.clone(),
                is_selected: selected_at(k, selected_index),
                is_navigable: false,
            },
        };
        assert(row@ == row_of(entries@[k as int]@, k as int, selected_index));
        rows.push(row);
        k = k + 1;
    }
    rows
}

/// What the Open dialog shows when it opens on a folder.
#[derive(Debug, Clone, PartialEq, Eq)]
pub struct FileDialogView {
    /// The folder shown in the header.
    pub folder_label: String,
    /// The rows.
    pub rows: Vec<FileListRow>,
    /// The selected row, or -1.
    pub selected_index: i32,
}

/// The Open dialog on `folder` with `entries`: the first file
/// pre-selected (or none), its rows marked accordingly.
pub fn open_dialog(folder: &str, entries: &[FolderEntry]) -> (view: FileDialogView)
    ensures
        view.folder_label@ == folder@,
        view.selected_index == first_file_position(entry_views(entries@)),
        view.rows@.len() == entries@.len(),
        forall|k: int|
            0 <= k < view.rows@.len() ==> (#[trigger] view.rows@[k])@ == row_of(
                entries@[k]@,
                k,
                view.selected_index,
            ),
{
    let selected_index = first_file_index(entries);
    FileDialogView {
        folder_label: String::from_str(folder),
        rows: dialog_rows(entries, selected_index),
        selected_index,
    }
}

/// `s` with ASCII upper-case letters lowered.
pub open spec fn lowered(s: Seq<char>) -> Seq<char> {
    s.map_values(|c: char| ascii_lower(c))
}

/// Against a word already in lower case, comparing ignoring ASCII case is
/// comparing the lowered text.
proof fn lemma_ignore_case_lowered(ext: Seq<char>, word: Seq<char>)
    requires
        forall|i: int| 0 <= i < word.len() ==> ascii_lower(#[trigger] word[i]) == word[i],
    ensures
        eq_ignore_ascii_case(ext, word) <==> lowered(ext) == word,
{
    if lowered(ext) == word {
        assert forall|i: int| 0 <= i < ext.len() implies ascii_lower(#[trigger] ext[i]) == ascii_lower(
            word[i],
        ) by {
            assert(lowered(ext)[i] == ascii_lower(ext[i]));
        }
    }
    if eq_ignore_ascii_case(ext, word) {
        assert(lowered(ext) =~= word);
    }
}

/// The video and audio extensions: a file is a video exactly when its
/// extension, with ASCII letters lowered, is mp4, mkv, webm, mov or avi,
/// and an audio recording exactly when it is wav; so such a file is listed
/// in the dialog of its kind, and no other file is.
pub proof fn lemma_media_extensions(path: Seq<char>, ext: Seq<char>)
    requires
        path_extension(path) == Some(ext),
    ensures
        is_media_path(path, MediaKind::Video) <==> (lowered(ext) == seq!['m', 'p', '4'] || lowered(ext)
            == seq!['m', 'k', 'v'] || lowered(ext) == seq!['w', 'e', 'b', 'm'] || lowered(ext) == seq![
            'm',
            'o',
            'v',
        ] || lowered(ext) == seq!['a', 'v', 'i']),
        is_media_path(path, MediaKind::Audio) <==> lowered(ext) == seq!['w', 'a', 'v'],
{
    reveal_strlit("mp4");
    reveal_strlit("mkv");
    reveal_strlit("webm");
    reveal_strlit("mov");
    reveal_strlit("avi");
    reveal_strlit("wav");
    assert("mp4"@ =~= seq!['m', 'p', '4']);
    assert("mkv"@ =~= seq!['m', 'k', 'v']);
    assert("webm"@ =~= seq!['w', 'e', 'b', 'm']);
    assert("mov"@ =~= seq!['m', 'o', 'v']);
    assert("avi"@ =~= seq!['a', 'v', 'i']);
    assert("wav"@ =~= seq!['w', 'a', 'v']);
    lemma_ignore_case_lowered(ext, "mp4"@);
    lemma_ignore_case_lowered(ext, "mkv"@);
    lemma_ignore_case_lowered(ext, "webm"@);
    lemma_ignore_case_lowered(ext, "mov"@);
    lemma_ignore_case_lowered(ext, "avi"@);
    lemma_ignore_case_lowered(ext, "wav"@);
}

} // verus!
