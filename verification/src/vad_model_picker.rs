//! Choosing a voice-activity model file (`.bin`): the same picker as for
//! transcription models, listing model files by their plain file names.
use vstd::prelude::*;
use crate::listing::{
    file_name_of, listed_views, parent_of, path_extension, path_extension_of, path_file_name,
    path_parent, sort_listed, sorted_listing, DirItem, Listed, ListedView,
};
pub use crate::model_picker::{FolderEntry, ModelFileEntry};
use crate::model_picker::{entry_views, folder_rows, model_rows_of, up_rows, FolderCheck, FolderEntryView};
use crate::open_media_dialog::ext_is;
use crate::text::{eq_ignore_ascii_case, owned};

verus! {

/// Whether the file at `path` is a voice-activity model: extension `bin`,
/// ignoring ASCII case.
pub open spec fn is_vad_model_path(path: Seq<char>) -> bool {
    match path_extension(path) {
        Some(ext) => eq_ignore_ascii_case(ext, "bin"@),
        None => false,
    }
}

/// Whether the file at `path` is a voice-activity model.
pub fn is_vad_model_file(path: &str) -> (b: bool)
    ensures
        b == is_vad_model_path(path@),
{
    match path_extension_of(path) {
        Some(ext) => ext_is(&ext, "bin"),
        None => false,
    }
}

/// The subfolders and model files among listed `items`, in listing order;
/// a model is shown by its file name (its whole path when it has none).
pub open spec fn vad_groups(items: Seq<DirItem>) -> (Seq<ListedView>, Seq<ListedView>)
    decreases items.len(),
{
    if items.len() == 0 {
        (Seq::empty(), Seq::empty())
    } else {
        let (dirs, models) = vad_groups(items.drop_last());
        let it = items.last();
        if it.is_dir {
            match path_file_name(it.path@) {
                Some(name) => (
                    dirs.push(ListedView { name, path: it.path@, size_label: Seq::empty() }),
                    models,
                ),
                None => (dirs, models),
            }
        } else if it.is_file && is_vad_model_path(it.path@) {
            (
                dirs,
                models.push(
                    ListedView {
                        name: match path_file_name(it.path@) {
                            Some(name) => name,
                            None => it.path@,
                        },
                        path: it.path@,
                        size_label: Seq::empty(),
                    },
                ),
            )
        } else {
            (dirs, models)
        }
    }
}

/// The picker's rows for `folder`, given what reading it gave (`None`
/// when it could not be read): an up row when the folder has a parent,
/// then the subfolders, then the model files, each group stably sorted by
/// name.
pub open spec fn vad_listing(folder: Seq<char>, listing: Option<Seq<DirItem>>) -> Seq<FolderEntryView> {
    match listing {
        None => up_rows(folder),
        Some(items) => up_rows(folder) + folder_rows(sorted_listing(vad_groups(items).0))
            + model_rows_of(sorted_listing(vad_groups(items).1)),
    }
}

/// The subfolders and model files among `items`.
fn collect_vad_models(items: &Vec<DirItem>) -> (r: (Vec<Listed>, Vec<Listed>))
    ensures
        listed_views(r.0@) == vad_groups(items@).0,
        listed_views(r.1@) == vad_groups(items@).1,
{
    let mut dirs: Vec<Listed> = Vec::new();
    let mut models: Vec<Listed> = Vec::new();
    let mut i: usize = 0;
    assert(items@.take(0) =~= Seq::<DirItem>::empty());
    while i < items.len()
        invariant
            i <= items@.len(),
            listed_views(dirs@) == vad_groups(items@.take(i as int)).0,
            listed_views(models@) == vad_groups(items@.take(i as int)).1,
        decreases items@.len() - i,
    {
        assert(items@.take(i + 1).drop_last() =~= items@.take(i as int));
        let item = &items[i];
        let ghost d0 = dirs@;
        let ghost m0 = models@;
        if item.is_dir {
            match file_name_of(item.path.as_str()) {
                Some(name) => {
                    dirs.push(Listed { name, path: item.path.clone(), size_label: String::new() });
                    assert(listed_views(dirs@) =~= listed_views(d0).push(dirs@.last()@));
                },
                None => {},
            }
        } else if item.is_file && is_vad_model_file(item.path.as_str()) {
            let name = match file_name_of(item.path.as_str()) {
                Some(n) => n,
                None => item.path.clone(),
            };
            models.push(Listed { name, path: item.path.clone(), size_label: String::new() });
            assert(listed_views(models@) =~= listed_views(m0).push(models@.last()@));
        }
        i = i + 1;
    }
    assert(items@.take(items@.len() as int) =~= items@);
    (dirs, models)
}

/// Appends rows for sorted subfolders and models.
fn push_rows(entries: &mut Vec<FolderEntry>, dirs: &Vec<Listed>, models: &Vec<Listed>)
    ensures
        entry_views(final(entries)@) == entry_views(old(entries)@) + folder_rows(listed_views(dirs@))
            + model_rows_of(listed_views(models@)),
{
    let ghost base = entry_views(entries@);
    let mut k: usize = 0;
    while k < dirs.len()
        invariant
            k <= dirs@.len(),
            entry_views(entries@) == base + folder_rows(listed_views(dirs@)).take(k as int),
        decreases dirs@.len() - k,
    {
        let ghost before = entries@;
        entries.push(FolderEntry::Folder { path: dirs[k].path.clone(), name: dirs[k].name.clone() });
        assert(entry_views(entries@) =~= entry_views(before).push(
            folder_rows(listed_views(dirs@))[k as int],
        ));
        assert(folder_rows(listed_views(dirs@)).take(k + 1) =~= folder_rows(listed_views(dirs@)).take(
            k as int,
        ).push(folder_rows(listed_views(dirs@))[k as int]));
        k = k + 1;
    }
    assert(folder_rows(listed_views(dirs@)).take(dirs@.len() as int) =~= folder_rows(
        listed_views(dirs@),
    ));
    let ghost mid = entry_views(entries@);
    let mut m: usize = 0;
    while m < models.len()
        invariant
            m <= models@.len(),
            entry_views(entries@) == mid + model_rows_of(listed_views(models@)).take(m as int),
        decreases models@.len() - m,
    {
        let ghost before = entries@;
        entries.push(
            FolderEntry::Model(
                ModelFileEntry { path: models[m].path.clone(), name: models[m].name.clone() },
            ),
        );
        assert(entry_views(entries@) =~= entry_views(before).push(
            model_rows_of(listed_views(models@))[m as int],
        ));
        assert(model_rows_of(listed_views(models@)).take(m + 1) =~= model_rows_of(
            listed_views(models@),
        ).take(m as int).push(model_rows_of(listed_views(models@))[m as int]));
        m = m + 1;
    }
    assert(model_rows_of(listed_views(models@)).take(models@.len() as int) =~= model_rows_of(
        listed_views(models@),
    ));
}

/// The picker's rows for `folder` (see [`vad_listing`]), given the
/// folder's items as read from disk, or `None` when it could not be read.
pub fn list_folder_entries(folder: &str, listing: Option<Vec<DirItem>>) -> (entries: Vec<
    FolderEntry,
>)
    ensures
        entry_views(entries@) == vad_listing(
            folder@,
            match listing {
                Some(v) => Some(v@),
                None => None,
            },
        ),
{
    let mut entries: Vec<FolderEntry> = Vec::new();
    match parent_of(folder) {
        Some(p) => {
            entries.push(FolderEntry::Up(p));
        },
        None => {},
    }
    assert(entry_views(entries@) =~= up_rows(folder@));
    match listing {
        None => entries,
        Some(items) => {
            let (dirs, models) = collect_vad_models(&items);
            let sorted_dirs = sort_listed(&dirs);
            let sorted_models = sort_listed(&models);
            push_rows(&mut entries, &sorted_dirs, &sorted_models);
            entries
        },
    }
}

/// The folder the picker starts in: the remembered model's folder if it
/// exists, else the first candidate folder that exists, else the working
/// folder.
pub open spec fn vad_start_folder(
    remembered_parent: Option<(Seq<char>, bool)>,
    candidates: Seq<FolderCheck>,
    cwd: Seq<char>,
) -> Seq<char> {
    match remembered_parent {
        Some((p, true)) => p,
        _ => if exists|k: int| 0 <= k < candidates.len() && (#[trigger] candidates[k]).is_dir {
            candidates[choose|k: int|
                0 <= k < candidates.len() && (#[trigger] candidates[k]).is_dir && forall|j: int|
                    0 <= j < k ==> !candidates[j].is_dir].path@
        } else {
            cwd
        },
    }
}

/// The folder the picker starts in (see [`vad_start_folder`]), given the
/// remembered model's parent folder and whether it exists, the candidate
/// folders as checked, and the working folder.
pub fn choose_start_folder(
    remembered_parent: Option<(String, bool)>,
    candidates: &Vec<FolderCheck>,
    cwd: String,
) -> (folder: String)
    ensures
        folder@ == vad_start_folder(
            match remembered_parent {
                Some((p, d)) => Some((p@, d)),
                None => None,
            },
            candidates@,
            cwd@,
        ),
{
    if let Some((p, true)) = remembered_parent {
        return p;
    }
    let mut k: usize = 0;
    while k < candidates.len()
        invariant
            k <= candidates@.len(),
            forall|j: int| 0 <= j < k ==> !(#[trigger] candidates@[j]).is_dir,
            match remembered_parent {
                Some((_, d)) => !d,
                None => true,
            },
        decreases candidates@.len() - k,
    {
        if candidates[k].is_dir {
            proof {
                let c = choose|q: int|
                    0 <= q < candidates@.len() && (#[trigger] candidates@[q]).is_dir && forall|j: int|
                        0 <= j < q ==> !candidates@[j].is_dir;
                assert(candidates@[k as int].is_dir);
                if c != k {
                    if c < k {
                        assert(!candidates@[c].is_dir);
                    } else {
                        assert(!candidates@[k as int].is_dir);
                    }
                }
            }
            return candidates[k].path.clone();
        }
        k = k + 1;
    }
    cwd
}

} // verus!
