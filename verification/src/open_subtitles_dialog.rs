//! The Open Subtitles dialog: which original and translation subtitle
//! files are linked to the open video, and the picker that links the
//! translated subtitle file found in the video's folder.
use vstd::prelude::*;
use crate::listing::{
    file_name_of, listed_views, opt_view, path_extension, path_extension_of, path_file_name,
    sort_listed, sorted_listing, DirItem, FileListRow, FileListRowView, Listed, ListedView,
    is_selected_index, selected_at,
};
use crate::open_media_dialog::ext_is;
use crate::text::{append_str, eq_ignore_ascii_case, string_from_chars};

verus! {

/// The subtitle files linked to the open video.
#[derive(Debug, Clone, PartialEq, Eq)]
pub struct SubtitleLinks {
    /// The original-language subtitle file, if any.
    pub original_path: Option<String>,
    /// The translation subtitle file, if any.
    pub translation_path: Option<String>,
}

impl SubtitleLinks {
    /// No subtitle files linked.
    pub fn default() -> (l: Self)
        ensures
            l.original_path is None,
            l.translation_path is None,
    {
        SubtitleLinks { original_path: None, translation_path: None }
    }
}

/// The state of subtitle generation shown in the dialog.
#[derive(Debug, Clone, Copy, PartialEq, Eq, Structural)]
pub enum SubtitleGenerationStatus {
    /// Not generating.
    Idle,
    /// Generation is running.
    Generating,
    /// Generation finished.
    Done,
    /// Generation failed.
    Error,
}

/// What the Open Subtitles dialog shows.
#[derive(Debug, Clone, PartialEq, Eq)]
pub struct SubtitlesDialogView {
    /// The dialog's title.
    pub title: String,
    /// Whether an original subtitle file is linked.
    pub original_linked: bool,
    /// The linked original's file name, or empty.
    pub original_name: String,
    /// Whether a translation subtitle file is linked.
    pub translation_linked: bool,
    /// The linked translation's file name, or empty.
    pub translation_name: String,
    /// The subtitle generation state.
    pub generation_status: SubtitleGenerationStatus,
    /// The last generation error, or empty.
    pub generation_error: String,
    /// Whether the dialog is open.
    pub is_open: bool,
}

/// How a path is named in the dialog: its file name, or the whole path
/// when it has none.
pub open spec fn shown_name(path: Seq<char>) -> Seq<char> {
    match path_file_name(path) {
        Some(name) => name,
        None => path,
    }
}

/// The name the dialog shows for `path`.
pub fn file_name(path: &str) -> (name: String)
    ensures
        name@ == shown_name(path@),
{
    match file_name_of(path) {
        Some(n) => n,
        None => String::from_str(path),
    }
}

/// The name shown for an optional linked file (empty when none).
pub open spec fn linked_name(path: Option<Seq<char>>) -> Seq<char> {
    match path {
        Some(p) => shown_name(p),
        None => Seq::empty(),
    }
}

/// The dialog opened for the video at `video_path` with `links`: titled
/// "Subtitles for <video file name>", each side linked (with its file
/// name) exactly when a path is set, generation idle with no error.
pub fn open_dialog(video_path: &str, links: &SubtitleLinks) -> (view: SubtitlesDialogView)
    ensures
        view.title@ == "Subtitles for "@ + shown_name(video_path@),
        view.original_linked == links.original_path is Some,
        view.original_name@ == linked_name(opt_view(links.original_path)),
        view.translation_linked == links.translation_path is Some,
        view.translation_name@ == linked_name(opt_view(links.translation_path)),
        view.generation_status == SubtitleGenerationStatus::Idle,
        view.generation_error@.len() == 0,
        view.is_open,
{
    let mut t: Vec<char> = Vec::new();
    append_str(&mut t, "Subtitles for ");
    let name = file_name(video_path);
    append_str(&mut t, name.as_str());
    let mut view = SubtitlesDialogView {
        title: string_from_chars(t.as_slice()),
        original_linked: false,
        original_name: String::new(),
        translation_linked: false,
        translation_name: String::new(),
        generation_status: SubtitleGenerationStatus::Idle,
        generation_error: String::new(),
        is_open: true,
    };
    match &links.original_path {
        Some(p) => mark_original_linked(&mut view, p.as_str()),
        None => {},
    }
    match &links.translation_path {
        Some(p) => mark_translation_linked(&mut view, p.as_str()),
        None => {},
    }
    view
}

/// Marks `path` as the linked translation, leaving the rest as it was.
pub fn mark_translation_linked(view: &mut SubtitlesDialogView, path: &str)
    ensures
        final(view).translation_linked,
        final(view).translation_name@ == shown_name(path@),
        final(view).title == old(view).title,
        final(view).original_linked == old(view).original_linked,
        final(view).original_name == old(view).original_name,
        final(view).generation_status == old(view).generation_status,
        final(view).generation_error == old(view).generation_error,
        final(view).is_open == old(view).is_open,
{
    view.translation_linked = true;
    view.translation_name = file_name(path);
}

/// Marks `path` as the linked original, leaving the rest as it was.
pub fn mark_original_linked(view: &mut SubtitlesDialogView, path: &str)
    ensures
        final(view).original_linked,
        final(view).original_name@ == shown_name(path@),
        final(view).title == old(view).title,
        final(view).translation_linked == old(view).translation_linked,
        final(view).translation_name == old(view).translation_name,
        final(view).generation_status == old(view).generation_status,
        final(view).generation_error == old(view).generation_error,
        final(view).is_open == old(view).is_open,
{
    view.original_linked = true;
    view.original_name = file_name(path);
}

/// Whether the file at `path` is a subtitle file: extension `srt`,
/// ignoring ASCII case.
pub open spec fn is_srt_path(path: Seq<char>) -> bool {
    match path_extension(path) {
        Some(ext) => eq_ignore_ascii_case(ext, "srt"@),
        None => false,
    }
}

/// The subtitle files among listed `items`, in listing order, keyed by
/// path.
pub open spec fn srt_items(items: Seq<DirItem>) -> Seq<ListedView>
    decreases items.len(),
{
    if items.len() == 0 {
        Seq::empty()
    } else {
        let prev = srt_items(items.drop_last());
        let it = items.last();
        if it.is_file && is_srt_path(it.path@) {
            prev.push(ListedView { name: it.path@, path: it.path@, size_label: Seq::empty() })
        } else {
            prev
        }
    }
}

/// The subtitle files of a folder (as full paths) sorted by path, given
/// the folder's items as read from disk (nothing when it could not be
/// read).
pub fn list_srt_files(listing: Option<Vec<DirItem>>) -> (files: Vec<String>)
    ensures
        match listing {
            Some(items) => files@.len() == srt_items(items@).len() && forall|k: int|
                0 <= k < files@.len() ==> (#[trigger] files@[k])@ == sorted_listing(
                    srt_items(items@),
                )[k].path,
            None => files@.len() == 0,
        },
{
    let items = match listing {
        Some(items) => items,
        None => {
            return Vec::new();
        },
    };
    let mut srts: Vec<Listed> = Vec::new();
    let mut i: usize = 0;
    assert(items@.take(0) =~= Seq::<DirItem>::empty());
    while i < items.len()
        invariant
            i <= items@.len(),
            listed_views(srts@) == srt_items(items@.take(i as int)),
        decreases items@.len() - i,
    {
        assert(items@.take(i + 1).drop_last() =~= items@.take(i as int));
        let item = &items[i];
        let ghost s0 = srts@;
        if item.is_file {
            let is_srt = match path_extension_of(item.path.as_str()) {
                Some(ext) => ext_is(&ext, "srt"),
                None => false,
            };
            if is_srt {
                srts.push(
                    Listed {
                        name: item.path.clone(),
                        path: item.path.clone(),
                        size_label: String::new(),
                    },
                );
                assert(listed_views(srts@) =~= listed_views(s0).push(srts@.last()@));
            }
        }
        i = i + 1;
    }
    assert(items@.take(items@.len() as int) =~= items@);
    let sorted = sort_listed(&srts);
    let mut files: Vec<String> = Vec::new();
    let mut k: usize = 0;
    while k < sorted.len()
        invariant
            k <= sorted@.len(),
            files@.len() == k,
            forall|q: int| 0 <= q < k ==> (#[trigger] files@[q])@ == sorted@[q].path@,
        decreases sorted@.len() - k,
    {
        files.push(sorted[k].path.clone());
        k = k + 1;
    }
    assert(listed_views(sorted@).len() == sorted@.len());
    assert forall|q: int| 0 <= q < files@.len() implies (#[trigger] files@[q])@ == sorted_listing(
        srt_items(items@),
    )[q].path by {
        assert(listed_views(sorted@)[q] == sorted@[q]@);
    }
    files
}

/// The translation picker's rows: each file's name, the one at
/// `selected_index` (if any) selected; none navigates or has a size.
pub fn picker_rows(entries: &[String], selected_index: i32) -> (rows: Vec<FileListRow>)
    ensures
        rows@.len() == entries@.len(),
        forall|k: int|
            0 <= k < rows@.len() ==> (#[trigger] rows@[k])@ == (FileListRowView {
                name: shown_name(entries@[k]@),
                size_label: Seq::empty(),
                is_selected: is_selected_index(k, selected_index),
                is_navigable: false,
            }),
{
    let mut rows: Vec<FileListRow> = Vec::new();
    let mut k: usize = 0;
    while k < entries.len()
        invariant
            k <= entries@.len(),
            rows@.len() == k,
            forall|q: int|
                0 <= q < k ==> (#[trigger] rows@[q])@ == (FileListRowView {
                    name: shown_name(entries@[q]@),
                    size_label: Seq::empty(),
                    is_selected: is_selected_index(q, selected_index),
                    is_navigable: false,
                }),
        decreases entries@.len() - k,
    {
        rows.push(
            FileListRow {
                name: file_name(entries[k].as_str()),
                size_label: String::new(),
                is_selected: selected_at(k, selected_index),
                is_navigable: false,
            },
        );
        k = k + 1;
    }
    rows
}

} // verus!
