//! The Open Video dialog: a folder's video files sorted by name with size
//! labels, the first one pre-selected.
use vstd::prelude::*;
use crate::listing::{
    file_name_of, listed_views, path_file_name, sort_listed, sorted_listing, DirItem, Listed,
    ListedView, is_selected_index, selected_at,
};
pub use crate::open_media_dialog::{format_file_size, matching_subtitle_path, subtitle_candidate_path};
use crate::open_media_dialog::{file_size_text, is_media_file, is_media_path, MediaKind};

verus! {

/// Whether the file at `path` is a video file by extension.
pub open spec fn is_video_path(path: Seq<char>) -> bool {
    is_media_path(path, MediaKind::Video)
}

/// Whether the file at `path` is a video file (mp4, mkv, webm, mov, avi,
/// ignoring ASCII case).
pub fn is_video_file(path: &str) -> (b: bool)
    ensures
        b == is_video_path(path@),
{
    is_media_file(path, MediaKind::Video)
}

/// A video file of the listed folder.
#[derive(Debug, Clone, PartialEq, Eq)]
pub struct VideoFileEntry {
    /// The file's full path.
    pub path: String,
    /// Its file name.
    pub name: String,
    /// Its size label, or empty when the size could not be read.
    pub size_label: String,
}

/// The video files among listed `items`, in listing order.
pub open spec fn video_items(items: Seq<DirItem>) -> Seq<ListedView>
    decreases items.len(),
{
    if items.len() == 0 {
        Seq::empty()
    } else {
        let prev = video_items(items.drop_last());
        let it = items.last();
        if it.is_file && is_video_path(it.path@) && path_file_name(it.path@) is Some {
            prev.push(
                ListedView {
                    name: path_file_name(it.path@)->0,
                    path: it.path@,
                    size_label: match it.size {
                        Some(bytes) => file_size_text(bytes as nat),
                        None => Seq::empty(),
                    },
                },
            )
        } else {
            prev
        }
    }
}

/// Whether `entries` are the given listed videos, in order.
pub open spec fn entries_are(entries: Seq<VideoFileEntry>, videos: Seq<ListedView>) -> bool {
    &&& entries.len() == videos.len()
    &&& forall|k: int|
        0 <= k < entries.len() ==> (#[trigger] entries[k]).path@ == videos[k].path
            && entries[k].name@ == videos[k].name && entries[k].size_label@ == videos[k].size_label
}

/// The video files of a folder, sorted by name, given the folder's items
/// as read from disk (nothing when it could not be read).
pub fn list_video_files(listing: Option<Vec<DirItem>>) -> (files: Vec<VideoFileEntry>)
    ensures
        match listing {
            Some(items) => entries_are(files@, sorted_listing(video_items(items@))),
            None => files@.len() == 0,
        },
{
    let items = match listing {
        Some(items) => items,
        None => {
            return Vec::new();
        },
    };
    let mut videos: Vec<Listed> = Vec::new();
    let mut i: usize = 0;
    assert(items@.take(0) =~= Seq::<DirItem>::empty());
    while i < items.len()
        invariant
            i <= items@.len(),
            listed_views(videos@) == video_items(items@.take(i as int)),
        decreases items@.len() - i,
    {
        assert(items@.take(i + 1).drop_last() =~= items@.take(i as int));
        let item = &items[i];
        let ghost v0 = videos@;
        if item.is_file && is_video_file(item.path.as_str()) {
            match file_name_of(item.path.as_str()) {
                Some(name) => {
                    let size_label = match item.size {
                        Some(bytes) => format_file_size(bytes),
                        None => String::new(),
                    };
                    videos.push(Listed { name, path: item.path.clone(), size_label });
                    assert(listed_views(videos@) =~= listed_views(v0).push(videos@.last()@));
                },
                None => {},
            }
        }
        i = i + 1;
    }
    assert(items@.take(items@.len() as int) =~= items@);
    let sorted = sort_listed(&videos);
    let mut files: Vec<VideoFileEntry> = Vec::new();
    let mut k: usize = 0;
    while k < sorted.len()
        invariant
            k <= sorted@.len(),
            files@.len() == k,
            forall|q: int|
                0 <= q < k ==> (#[trigger] files@[q]).path@ == sorted@[q].path@ && files@[q].name@
                    == sorted@[q].name@ && files@[q].size_label@ == sorted@[q].size_label@,
        decreases sorted@.len() - k,
    {
        files.push(
            VideoFileEntry {
                path: sorted[k].path.clone(),
                name: sorted[k].name.clone(),
                size_label: sorted[k].size_label.clone(),
            },
        );
        k = k + 1;
    }
    assert forall|q: int| 0 <= q < files@.len() implies (#[trigger] files@[q]).path@
        == sorted_listing(video_items(items@))[q].path && files@[q].name@ == sorted_listing(
        video_items(items@),
    )[q].name && files@[q].size_label@ == sorted_listing(video_items(items@))[q].size_label by {
        assert(listed_views(sorted@)[q] == sorted@[q]@);
    }
    files
}

/// One row of the Open Video dialog.
#[derive(Debug, Clone, PartialEq, Eq)]
pub struct OpenVideoFileRow {
    /// The file name.
    pub name: String,
    /// The size label.
    pub size_label: String,
    /// Whether the row is selected.
    pub is_selected: bool,
}

/// The dialog's rows for `entries`, the one at `selected_index` (if any)
/// marked selected.
pub fn dialog_rows(entries: &[VideoFileEntry], selected_index: i32) -> (rows: Vec<OpenVideoFileRow>)
    ensures
        rows@.len() == entries@.len(),
        forall|k: int|
            0 <= k < rows@.len() ==> (#[trigger] rows@[k]).name@ == entries@[k].name@
                && rows@[k].size_label@ == entries@[k].size_label@ && rows@[k].is_selected
                == is_selected_index(k, selected_index),
{
    let mut rows: Vec<OpenVideoFileRow> = Vec::new();
    let mut k: usize = 0;
    while k < entries.len()
        invariant
            k <= entries@.len(),
            rows@.len() == k,
            forall|q: int|
                0 <= q < k ==> (#[trigger] rows@[q]).name@ == entries@[q].name@
                    && rows@[q].size_label@ == entries@[q].size_label@ && rows@[q].is_selected
                    == is_selected_index(q, selected_index),
        decreases entries@.len() - k,
    {
        rows.push(
            OpenVideoFileRow {
                name: entries[k].name.clone(),
                size_label: entries[k].size_label.clone(),
                is_selected: selected_at(k, selected_index),
            },
        );
        k = k + 1;
    }
    rows
}

/// The row selected when the dialog opens on `entries`: the first, or -1
/// when there are none.
pub fn initial_selection(entries: &[VideoFileEntry]) -> (index: i32)
    ensures
        index == (if entries@.len() == 0 {
            -1int
        } else {
            0int
        }),
{
    if entries.len() == 0 {
        -1
    } else {
        0
    }
}

} // verus!
