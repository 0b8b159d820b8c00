//! What the Open Subtitles dialog shows when subtitle generation ends.
use vstd::prelude::*;
use crate::open_subtitles_dialog::{
    mark_original_linked, shown_name, SubtitleGenerationStatus, SubtitlesDialogView,
};

verus! {

/// Applies a generation outcome to the dialog: on success, generation is
/// done with no error, the generated file is linked as the original, and
/// its path is handed back for loading; on failure, generation shows the
/// error and nothing is handed back.
pub fn apply_result(view: &mut SubtitlesDialogView, result: Result<String, String>) -> (loaded:
    Option<String>)
    ensures
        match result {
            Ok(path) => {
                &&& final(view).generation_status == SubtitleGenerationStatus::Done
                &&& final(view).generation_error@.len() == 0
                &&& final(view).original_linked
                &&& final(view).original_name@ == shown_name(path@)
                &&& loaded matches Some(p) && p@ == path@
            },
            Err(message) => {
                &&& final(view).generation_status == SubtitleGenerationStatus::Error
                &&& final(view).generation_error@ == message@
                &&& final(view).original_linked == old(view).original_linked
                &&& final(view).original_name == old(view).original_name
                &&& loaded is None
            },
        },
        final(view).title == old(view).title,
        final(view).translation_linked == old(view).translation_linked,
        final(view).translation_name == old(view).translation_name,
        final(view).is_open == old(view).is_open,
{
    match result {
        Ok(path) => {
            view.generation_status = SubtitleGenerationStatus::Done;
            view.generation_error = String::new();
            mark_original_linked(view, path.as_str());
            Some(path)
        },
        Err(message) => {
            view.generation_status = SubtitleGenerationStatus::Error;
            view.generation_error = message;
            None
        },
    }
}

} // verus!
