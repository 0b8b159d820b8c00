//! The player's command line: `trango [--debug] [video [subtitles
//! [translation subtitles]]]`, and the choices made from it.
use vstd::prelude::*;
use crate::listing::{opt_view, parent_of, path_parent};
use crate::open_media_dialog::MediaKind;
use crate::playback::MediaSource;

verus! {

/// The player's version.
pub fn version() -> (v: &'static str)
    ensures
        v@ == "0.1.0"@,
{
    "0.1.0"
}

/// Whether `arg` is the debug flag.
pub open spec fn is_debug_flag(arg: Seq<char>) -> bool {
    arg == "--debug"@
}

/// Splits the debug flag off `args`: whether `--debug` occurs anywhere,
/// and the other arguments in order, so positional arguments keep their
/// positions.
pub fn extract_debug_flag(args: Vec<String>) -> (r: (bool, Vec<String>))
    ensures
        r.0 == exists|k: int| 0 <= k < args@.len() && is_debug_flag(#[trigger] args@[k]@),
        crate::text::string_views(r.1@) == crate::text::string_views(args@).filter(
            |a: Seq<char>| !is_debug_flag(a),
        ),
{
    let ghost views = crate::text::string_views(args@);
    let flag = crate::text::chars_of("--debug");
    let mut debug = false;
    let mut rest: Vec<String> = Vec::new();
    let mut i: usize = 0;
    while i < args.len()
        invariant
            i <= args@.len(),
            views == crate::text::string_views(args@),
            flag@ == "--debug"@,
            debug == exists|k: int| 0 <= k < i && is_debug_flag(#[trigger] args@[k]@),
            crate::text::string_views(rest@) == views.take(i as int).filter(
                |a: Seq<char>| !is_debug_flag(a),
            ),
        decreases args@.len() - i,
    {
        proof {
            reveal(Seq::filter);
            assert(views.take(i + 1).drop_last() =~= views.take(i as int));
            assert(views[i as int] == args@[i as int]@);
        }
        let a = crate::text::chars_of(args[i].as_str());
        let is_flag = crate::hebrew_word_merge::chars_equal(a.as_slice(), flag.as_slice());
        let ghost before = rest@;
        if is_flag {
            debug = true;
        } else {
            rest.push(args[i].clone());
            assert(crate::text::string_views(rest@) =~= crate::text::string_views(before).push(
                args@[i as int]@,
            ));
        }
        i = i + 1;
    }
    assert(views.take(args@.len() as int) =~= views);
    (debug, rest)
}

/// The argument at `position`, if given.
pub open spec fn arg_at(args: Seq<String>, position: int) -> Option<Seq<char>> {
    if position < args.len() {
        Some(args[position]@)
    } else {
        None
    }
}

/// The video to open: the first argument after the program name.
pub fn video_path_from_args(args: &[String]) -> (p: Option<String>)
    ensures
        opt_view(p) == arg_at(args@, 1),
{
    if args.len() > 1 {
        Some(args[1].clone())
    } else {
        None
    }
}

/// The subtitles to load: the second argument after the program name.
pub fn subtitle_path_from_args(args: &[String]) -> (p: Option<String>)
    ensures
        opt_view(p) == arg_at(args@, 2),
{
    if args.len() > 2 {
        Some(args[2].clone())
    } else {
        None
    }
}

/// The translation subtitles to merge in: the third argument after the
/// program name.
pub fn translation_path_from_args(args: &[String]) -> (p: Option<String>)
    ensures
        opt_view(p) == arg_at(args@, 3),
{
    if args.len() > 3 {
        Some(args[3].clone())
    } else {
        None
    }
}

/// The folder the Open dialog starts in for videos: the folder of the video
/// given on the command line (when it has a non-empty one), else the saved
/// video folder, else the working folder.
pub open spec fn default_video_folder_of(
    args: Seq<String>,
    saved: Option<Seq<char>>,
    cwd: Seq<char>,
) -> Seq<char> {
    let from_args = match arg_at(args, 1) {
        Some(video) => match path_parent(video) {
            Some(parent) => if parent.len() > 0 {
                Some(parent)
            } else {
                None
            },
            None => None,
        },
        None => None,
    };
    match from_args {
        Some(f) => f,
        None => match saved {
            Some(s) => s,
            None => cwd,
        },
    }
}

/// The folder the Open dialog starts in for videos (see
/// [`default_video_folder_of`]), given the saved folder and the working
/// folder.
pub fn default_video_folder(args: &[String], saved: Option<String>, cwd: String) -> (folder: String)
    ensures
        folder@ == default_video_folder_of(args@, opt_view(saved), cwd@),
{
    match video_path_from_args(args) {
        Some(video) => match parent_of(video.as_str()) {
            Some(parent) => {
                if parent.as_str().unicode_len() > 0 {
                    return parent;
                }
            },
            None => {},
        },
        None => {},
    }
    match saved {
        Some(s) => s,
        None => cwd,
    }
}

/// The kind of file the Open dialog lists for `source`.
pub fn media_kind_for_source(source: MediaSource) -> (kind: MediaKind)
    ensures
        kind == (match source {
            MediaSource::Video => MediaKind::Video,
            MediaSource::Audio => MediaKind::Audio,
        }),
{
    match source {
        MediaSource::Video => MediaKind::Video,
        MediaSource::Audio => MediaKind::Audio,
    }
}

/// The source panel that shows media of `kind`.
pub fn source_for_media_kind(kind: MediaKind) -> (source: MediaSource)
    ensures
        source == (match kind {
            MediaKind::Video => MediaSource::Video,
            MediaKind::Audio => MediaSource::Audio,
        }),
{
    match kind {
        MediaKind::Video => MediaSource::Video,
        MediaKind::Audio => MediaSource::Audio,
    }
}

/// The Open dialog's title for `kind`.
pub fn open_media_dialog_title(kind: MediaKind) -> (title: &'static str)
    ensures
        title@ == (match kind {
            MediaKind::Video => "Open video file"@,
            MediaKind::Audio => "Open audio file"@,
        }),
{
    match kind {
        MediaKind::Video => "Open video file",
        MediaKind::Audio => "Open audio file",
    }
}

/// Choosing the Open dialog's kind from a source and the source from the
/// kind gives back the source.
pub proof fn lemma_source_kind_round_trip(source: MediaSource)
    ensures
        (match (match source {
            MediaSource::Video => MediaKind::Video,
            MediaSource::Audio => MediaKind::Audio,
        }) {
            MediaKind::Video => MediaSource::Video,
            MediaKind::Audio => MediaSource::Audio,
        }) == source,
{
}

} // verus!
