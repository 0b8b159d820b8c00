//! Choosing a whisper.cpp model file: a folder's subfolders and model files
//! (`.bin`, `.gguf`) labelled English-only or multilingual by the model
//! naming convention, the language flag each kind of model needs, where
//! models usually live, and which folder the picker starts in.
use vstd::prelude::*;
use crate::listing::{
    file_name_of, join_path, listed_views, opt_view, parent_of, path_extension, path_extension_of,
    path_file_name, path_join, path_parent, sort_listed, sorted_listing, stem_of_name, name_stem,
    DirItem, FileListRow, FileListRowView, Listed, ListedView, is_selected_index, selected_at,
};
use crate::open_media_dialog::ext_is;
use crate::text::{append_str, chars_of, eq_ignore_ascii_case, string_from_chars};

verus! {

/// Whether the file at `path` is a model file: extension `bin` or `gguf`,
/// ignoring ASCII case.
pub open spec fn is_model_path(path: Seq<char>) -> bool {
    match path_extension(path) {
        Some(ext) => eq_ignore_ascii_case(ext, "bin"@) || eq_ignore_ascii_case(ext, "gguf"@),
        None => false,
    }
}

/// Whether the file at `path` is a model file.
pub fn is_model_file(path: &str) -> (b: bool)
    ensures
        b == is_model_path(path@),
{
    match path_extension_of(path) {
        Some(ext) => ext_is(&ext, "bin") || ext_is(&ext, "gguf"),
        None => false,
    }
}

/// Whether the model at `path` is English-only by whisper.cpp's naming
/// convention: its file stem ends in the extension `en` (as in
/// `ggml-base.en.bin`), ignoring ASCII case.
pub open spec fn english_only(path: Seq<char>) -> bool {
    match path_file_name(path) {
        Some(name) => match path_extension(name_stem(name)) {
            Some(ext) => eq_ignore_ascii_case(ext, "en"@),
            None => false,
        },
        None => false,
    }
}

/// Whether the model at `path` is English-only.
pub fn is_english_only(path: &str) -> (b: bool)
    ensures
        b == english_only(path@),
{
    match file_name_of(path) {
        Some(name) => {
            let cs = chars_of(name.as_str());
            let stem = stem_of_name(cs.as_slice());
            let stem_text = string_from_chars(stem.as_slice());
            match path_extension_of(stem_text.as_str()) {
                Some(ext) => ext_is(&ext, "en"),
                None => false,
            }
        },
        None => false,
    }
}

/// The language flag to pass the transcriber for the model at `path`:
/// `"en"` for an English-only model, `"auto"` otherwise (the
/// transcriber's own default language is English whatever the model).
pub fn language_flag(path: &str) -> (flag: &'static str)
    ensures
        flag@ == (if english_only(path@) {
            "en"@
        } else {
            "auto"@
        }),
{
    if is_english_only(path) {
        "en"
    } else {
        "auto"
    }
}

/// A model's display name: its file name (the whole path when it has
/// none) with " (English)" or " (multilingual)" appended.
pub open spec fn display_name_text(path: Seq<char>) -> Seq<char> {
    (match path_file_name(path) {
        Some(name) => name,
        None => path,
    }) + if english_only(path) {
        " (English)"@
    } else {
        " (multilingual)"@
    }
}

/// A model's display name, e.g. `"ggml-base.en.bin (English)"`.
pub fn display_name(path: &str) -> (name: String)
    ensures
        name@ == display_name_text(path@),
{
    let mut v: Vec<char> = Vec::new();
    match file_name_of(path) {
        Some(n) => append_str(&mut v, n.as_str()),
        None => append_str(&mut v, path),
    }
    if is_english_only(path) {
        append_str(&mut v, " (English)");
    } else {
        append_str(&mut v, " (multilingual)");
    }
    string_from_chars(v.as_slice())
}

/// A selectable model file.
#[derive(Debug, Clone, PartialEq, Eq)]
pub struct ModelFileEntry {
    /// The model's full path.
    pub path: String,
    /// Its display name (see [`display_name`]).
    pub name: String,
}

/// One row of the model picker's listing.
#[derive(Debug, Clone, PartialEq, Eq)]
pub enum FolderEntry {
    /// The listed folder's parent.
    Up(String),
    /// A subfolder, to navigate into.
    Folder { path: String, name: String },
    /// A model file.
    Model(ModelFileEntry),
}

/// The value of a [`FolderEntry`].
pub enum FolderEntryView {
    /// The parent's path.
    Up(Seq<char>),
    /// A subfolder's path and name.
    Folder { path: Seq<char>, name: Seq<char> },
    /// A model's path and display name.
    Model { path: Seq<char>, name: Seq<char> },
}

impl View for FolderEntry {
    type V = FolderEntryView;

    open spec fn view(&self) -> FolderEntryView {
        match *self {
            FolderEntry::Up(p) => FolderEntryView::Up(p@),
            FolderEntry::Folder { path, name } => FolderEntryView::Folder { path: path@, name: name@ },
            FolderEntry::Model(m) => FolderEntryView::Model { path: m.path@, name: m.name@ },
        }
    }
}

/// The values of a sequence of entries.
pub open spec fn entry_views(entries: Seq<FolderEntry>) -> Seq<FolderEntryView> {
    entries.map_values(|e: FolderEntry| e@)
}

/// The subfolders and model files among listed `items`, in listing order,
/// each with the name it is shown by.
pub open spec fn model_groups(items: Seq<DirItem>) -> (Seq<ListedView>, Seq<ListedView>)
    decreases items.len(),
{
    if items.len() == 0 {
        (Seq::empty(), Seq::empty())
    } else {
        let (dirs, models) = model_groups(items.drop_last());
        let it = items.last();
        if it.is_dir {
            match path_file_name(it.path@) {
                Some(name) => (
                    dirs.push(ListedView { name, path: it.path@, size_label: Seq::empty() }),
                    models,
                ),
                None => (dirs, models),
            }
        } else if it.is_file && is_model_path(it.path@) {
            (
                dirs,
                models.push(
                    ListedView {
                        name: display_name_text(it.path@),
                        path: it.path@,
                        size_label: Seq::empty(),
                    },
                ),
            )
        } else {
            (dirs, models)
        }
    }
}

/// The up row for `folder`, if it has a parent.
pub open spec fn up_rows(folder: Seq<char>) -> Seq<FolderEntryView> {
    match path_parent(folder) {
        Some(p) => seq![FolderEntryView::Up(p)],
        None => Seq::empty(),
    }
}

/// Subfolder rows for listed folders.
pub open spec fn folder_rows(dirs: Seq<ListedView>) -> Seq<FolderEntryView> {
    dirs.map_values(|d: ListedView| FolderEntryView::Folder { path: d.path, name: d.name })
}

/// Model rows for listed models.
pub open spec fn model_rows_of(models: Seq<ListedView>) -> Seq<FolderEntryView> {
    models.map_values(|m: ListedView| FolderEntryView::Model { path: m.path, name: m.name })
}

/// The model picker's rows for `folder`, given what reading it gave
/// (`None` when it could not be read): an up row when the folder has a
/// parent, then the subfolders, then the model files by display name, each
/// group stably sorted by name.
pub open spec fn model_listing(folder: Seq<char>, listing: Option<Seq<DirItem>>) -> Seq<
    FolderEntryView,
> {
    match listing {
        None => up_rows(folder),
        Some(items) => up_rows(folder) + folder_rows(sorted_listing(model_groups(items).0))
            + model_rows_of(sorted_listing(model_groups(items).1)),
    }
}

/// The subfolders and model files among `items`.
fn collect_models(items: &Vec<DirItem>) -> (r: (Vec<Listed>, Vec<Listed>))
    ensures
        listed_views(r.0@) == model_groups(items@).0,
        listed_views(r.1@) == model_groups(items@).1,
{
    let mut dirs: Vec<Listed> = Vec::new();
    let mut models: Vec<Listed> = Vec::new();
    let mut i: usize = 0;
    assert(items@.take(0) =~= Seq::<DirItem>::empty());
    while i < items.len()
        invariant
            i <= items@.len(),
            listed_views(dirs@) == model_groups(items@.take(i as int)).0,
            listed_views(models@) == model_groups(items@.take(i as int)).1,
        decreases items@.len() - i,
    {
        assert(items@.take(i + 1).drop_last() =~= items@.take(i as int));
        let item = &items[i];
        let ghost d0 = dirs@;
        let ghost m0 = models@;
        if item.is_dir {
            match file_name_of(item.path.as_str()) {
                Some(name) => {
                    dirs.push(Listed { name, path: item.path.clone(), size_label: String::new() });
                    assert(listed_views(dirs@) =~= listed_views(d0).push(dirs@.last()@));
                },
                None => {},
            }
        } else if item.is_file && is_model_file(item.path.as_str()) {
            models.push(
                Listed {
                    name: display_name(item.path.as_str()),
                    path: item.path.clone(),
                    size_label: String::new(),
                },
            );
            assert(listed_views(models@) =~= listed_views(m0).push(models@.last()@));
        }
        i = i + 1;
    }
    assert(items@.take(items@.len() as int) =~= items@);
    (dirs, models)
}

/// Appends subfolder rows for `dirs`, in order.
fn push_folders(entries: &mut Vec<FolderEntry>, dirs: &Vec<Listed>)
    ensures
        entry_views(final(entries)@) == entry_views(old(entries)@) + folder_rows(listed_views(dirs@)),
{
    let ghost base = entry_views(entries@);
    let mut k: usize = 0;
    while k < dirs.len()
        invariant
            k <= dirs@.len(),
            entry_views(entries@) == base + folder_rows(listed_views(dirs@)).take(k as int),
        decreases dirs@.len() - k,
    {
        let ghost before = entries@;
        entries.push(FolderEntry::Folder { path: dirs[k].path.clone(), name: dirs[k].name.clone() });
        assert(entry_views(entries@) =~= entry_views(before).push(
            folder_rows(listed_views(dirs@))[k as int],
        ));
        assert(folder_rows(listed_views(dirs@)).take(k + 1) =~= folder_rows(listed_views(dirs@)).take(
            k as int,
        ).push(folder_rows(listed_views(dirs@))[k as int]));
        k = k + 1;
    }
    assert(folder_rows(listed_views(dirs@)).take(dirs@.len() as int) =~= folder_rows(
        listed_views(dirs@),
    ));
}

/// Appends model rows for `models`, in order.
fn push_models(entries: &mut Vec<FolderEntry>, models: &Vec<Listed>)
    ensures
        entry_views(final(entries)@) == entry_views(old(entries)@) + model_rows_of(
            listed_views(models@),
        ),
{
    let ghost base = entry_views(entries@);
    let mut k: usize = 0;
    while k < models.len()
        invariant
            k <= models@.len(),
            entry_views(entries@) == base + model_rows_of(listed_views(models@)).take(k as int),
        decreases models@.len() - k,
    {
        let ghost before = entries@;
        entries.push(
            FolderEntry::Model(
                ModelFileEntry { path: models[k].path.clone(), name: models[k].name.clone() },
            ),
        );
        assert(entry_views(entries@) =~= entry_views(before).push(
            model_rows_of(listed_views(models@))[k as int],
        ));
        assert(model_rows_of(listed_views(models@)).take(k + 1) =~= model_rows_of(
            listed_views(models@),
        ).take(k as int).push(model_rows_of(listed_views(models@))[k as int]));
        k = k + 1;
    }
    assert(model_rows_of(listed_views(models@)).take(models@.len() as int) =~= model_rows_of(
        listed_views(models@),
    ));
}

/// The model picker's rows for `folder` (see [`model_listing`]), given
/// the folder's items as read from disk, or `None` when it could not be
/// read.
pub fn list_folder_entries(folder: &str, listing: Option<Vec<DirItem>>) -> (entries: Vec<
    FolderEntry,
>)
    ensures
        entry_views(entries@) == model_listing(
            folder@,
            match listing {
                Some(v) => Some(v@),
                None => None,
            },
        ),
{
    let mut entries: Vec<FolderEntry> = Vec::new();
    match parent_of(folder) {
        Some(p) => {
            entries.push(FolderEntry::Up(p));
        },
        None => {},
    }
    assert(entry_views(entries@) =~= up_rows(folder@));
    match listing {
        None => entries,
        Some(items) => {
            let (dirs, models) = collect_models(&items);
            let sorted_dirs = sort_listed(&dirs);
            let sorted_models = sort_listed(&models);
            push_folders(&mut entries, &sorted_dirs);
            push_models(&mut entries, &sorted_models);
            entries
        },
    }
}

/// The folders whisper.cpp models are usually found in, most likely first:
/// under `home` (when known) `whisper.cpp/models`,
/// `.cache/whisper.cpp/models` and `.local/share/whisper.cpp/models`; then
/// `models` relative to the working folder.
pub open spec fn candidate_folders(home: Option<Seq<char>>) -> Seq<Seq<char>> {
    match home {
        Some(h) => seq![
            path_join(path_join(h, "whisper.cpp"@), "models"@),
            path_join(path_join(path_join(h, ".cache"@), "whisper.cpp"@), "models"@),
            path_join(
                path_join(path_join(path_join(h, ".local"@), "share"@), "whisper.cpp"@),
                "models"@,
            ),
            "models"@,
        ],
        None => seq!["models"@],
    }
}

/// The folders whisper.cpp models are usually found in (see
/// [`candidate_folders`]); whether they exist is for the caller to check.
pub fn candidate_model_folders(home: Option<&str>) -> (folders: Vec<String>)
    ensures
        crate::text::string_views(folders@) == candidate_folders(
            match home {
                Some(h) => Some(h@),
                None => None,
            },
        ),
{
    let mut folders: Vec<String> = Vec::new();
    match home {
        Some(h) => {
            let a = join_path(h, "whisper.cpp");
            folders.push(join_path(a.as_str(), "models"));
            let b = join_path(h, ".cache");
            let b2 = join_path(b.as_str(), "whisper.cpp");
            folders.push(join_path(b2.as_str(), "models"));
            let c = join_path(h, ".local");
            let c2 = join_path(c.as_str(), "share");
            let c3 = join_path(c2.as_str(), "whisper.cpp");
            folders.push(join_path(c3.as_str(), "models"));
        },
        None => {},
    }
    folders.push(String::from_str("models"));
    assert(crate::text::string_views(folders@) =~= candidate_folders(
        match home {
            Some(h) => Some(h@),
            None => None,
        },
    ));
    folders
}

/// What the caller found out about a candidate start folder.
#[derive(Debug, Clone, PartialEq, Eq)]
pub struct FolderCheck {
    /// The folder.
    pub path: String,
    /// Whether it exists as a folder.
    pub is_dir: bool,
    /// Whether its listing holds at least one model file.
    pub has_models: bool,
}

/// The folder the picker starts in: the remembered folder if it still
/// exists; otherwise the first candidate that exists and holds models;
/// otherwise the first that exists; otherwise the working folder.
pub open spec fn start_folder(
    remembered: Option<(Seq<char>, bool)>,
    candidates: Seq<FolderCheck>,
    cwd: Seq<char>,
) -> Seq<char> {
    match remembered {
        Some((p, true)) => p,
        _ => fallback_folder(candidates, cwd),
    }
}

/// The first candidate that exists and holds models, else the first that
/// exists, else `cwd`.
pub open spec fn fallback_folder(candidates: Seq<FolderCheck>, cwd: Seq<char>) -> Seq<char> {
    if exists|k: int| 0 <= k < candidates.len() && (#[trigger] candidates[k]).is_dir
        && candidates[k].has_models {
        candidates[choose|k: int|
            0 <= k < candidates.len() && (#[trigger] candidates[k]).is_dir && candidates[k].has_models
                && forall|j: int| 0 <= j < k ==> !(candidates[j].is_dir && candidates[j].has_models)].path@
    } else if exists|k: int| 0 <= k < candidates.len() && (#[trigger] candidates[k]).is_dir {
        candidates[choose|k: int|
            0 <= k < candidates.len() && (#[trigger] candidates[k]).is_dir && forall|j: int|
                0 <= j < k ==> !candidates[j].is_dir].path@
    } else {
        cwd
    }
}

/// The first index in `candidates` satisfying the check `want`
/// (`is_dir && has_models` when `with_models`, else `is_dir`).
fn first_matching(candidates: &Vec<FolderCheck>, with_models: bool) -> (found: Option<usize>)
    ensures
        match found {
            Some(k) => k < candidates@.len() && candidates@[k as int].is_dir && (!with_models
                || candidates@[k as int].has_models) && forall|j: int|
                0 <= j < k ==> !(candidates@[j].is_dir && (!with_models || candidates@[j].has_models)),
            None => forall|j: int|
                0 <= j < candidates@.len() ==> !((#[trigger] candidates@[j]).is_dir && (!with_models
                    || candidates@[j].has_models)),
        },
{
    let mut k: usize = 0;
    while k < candidates.len()
        invariant
            k <= candidates@.len(),
            forall|j: int|
                0 <= j < k ==> !((#[trigger] candidates@[j]).is_dir && (!with_models
                    || candidates@[j].has_models)),
        decreases candidates@.len() - k,
    {
        if candidates[k].is_dir && (!with_models || candidates[k].has_models) {
            return Some(k);
        }
        k = k + 1;
    }
    None
}

/// The folder the model picker starts in (see [`start_folder`]), given
/// the remembered folder and whether it exists, the candidate folders as
/// checked, and the working folder.
pub fn choose_start_folder(
    remembered: Option<(String, bool)>,
    candidates: &Vec<FolderCheck>,
    cwd: String,
) -> (folder: String)
    ensures
        folder@ == start_folder(
            match remembered {
                Some((p, d)) => Some((p@, d)),
                None => None,
            },
            candidates@,
            cwd@,
        ),
{
    if let Some((p, true)) = remembered {
        return p;
    }
    match first_matching(candidates, true) {
        Some(k) => {
            proof {
                let c = choose|q: int|
                    0 <= q < candidates@.len() && (#[trigger] candidates@[q]).is_dir
                        && candidates@[q].has_models && forall|j: int|
                        0 <= j < q ==> !(candidates@[j].is_dir && candidates@[j].has_models);
                assert(candidates@[k as int].is_dir && candidates@[k as int].has_models);
                if c != k {
                    if c < k {
                        assert(!(candidates@[c].is_dir && candidates@[c].has_models));
                    } else {
                        assert(!(candidates@[k as int].is_dir && candidates@[k as int].has_models));
                    }
                }
            }
            candidates[k].path.clone()
        },
        None => match first_matching(candidates, false) {
            Some(k) => {
                proof {
                    let c = choose|q: int|
                        0 <= q < candidates@.len() && (#[trigger] candidates@[q]).is_dir
                            && forall|j: int| 0 <= j < q ==> !candidates@[j].is_dir;
                    assert(candidates@[k as int].is_dir);
                    if c != k {
                        if c < k {
                            assert(!candidates@[c].is_dir);
                        } else {
                            assert(!candidates@[k as int].is_dir);
                        }
                    }
                }
                candidates[k].path.clone()
            },
            None => cwd,
        },
    }
}

/// The row of one entry: the up row and subfolders navigate, models are
/// selected when at `selected`.
pub open spec fn row_of(e: FolderEntryView, index: int, selected: i32) -> FileListRowView {
    match e {
        FolderEntryView::Up(_) => FileListRowView {
            name: "⬆ .. (up)"@,
            size_label: Seq::empty(),
            is_selected: false,
            is_navigable: true,
        },
        FolderEntryView::Folder { name, .. } => FileListRowView {
            name: name + seq!['/'],
            size_label: Seq::empty(),
            is_selected: false,
            is_navigable: true,
        },
        FolderEntryView::Model { name, .. } => FileListRowView {
            name,
            size_label: Seq::empty(),
            is_selected: is_selected_index(index, selected),
            is_navigable: false,
        },
    }
}

/// The picker's rows for `entries`, the model at `selected_index` (if
/// any) marked selected.
pub fn dialog_rows(entries: &[FolderEntry], selected_index: i32) -> (rows: Vec<FileListRow>)
    ensures
        rows@.len() == entries@.len(),
        forall|k: int|
            0 <= k < rows@.len() ==> (#[trigger] rows@[k])@ == row_of(entries@[k]@, k, selected_index),
{
    let mut rows: Vec<FileListRow> = Vec::new();
    let mut k: usize = 0;
    while k < entries.len()
        invariant
            k <= entries@.len(),
            rows@.len() == k,
            forall|q: int|
                0 <= q < k ==> (#[trigger] rows@[q])@ == row_of(entries@[q]@, q, selected_index),
        decreases entries@.len() - k,
    {
        let row = match &entries[k] {
            FolderEntry::Up(_) => FileListRow {
                name: String::from_str("⬆ .. (up)"),
                size_label: String::new(),
                is_selected: false,
                is_navigable: true,
            },
            FolderEntry::Folder { name, .. } => {
                let mut v = chars_of(name.as_str());
                v.push('/');
                assert(v@ =~= name@ + seq!['/']);
                FileListRow {
                    name: string_from_chars(v.as_slice()),
                    size_label: String::new(),
                    is_selected: false,
                    is_navigable: true,
                }
            },
            FolderEntry::Model(m) => FileListRow {
                name: m.name.clone(),
                size_label: String::new(),
                is_selected: selected_at(k, selected_index),
                is_navigable: false,
            },
        };
        rows.push(row);
        k = k + 1;
    }
    rows
}

} // verus!
