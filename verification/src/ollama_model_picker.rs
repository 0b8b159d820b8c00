//! Picking the language model used for sentence analysis from the models
//! the model server reports.
use vstd::prelude::*;
use crate::listing::{FileListRow, FileListRowView, is_selected_index, selected_at};

verus! {

/// The position of the first of `models` equal to `current`, as the row
/// index (wrapping as `as i32` does beyond `i32`); -1 when `current` is
/// absent or not among them.
pub open spec fn selected_position(models: Seq<Seq<char>>, current: Option<Seq<char>>) -> i32 {
    match current {
        Some(c) => if exists|k: int| 0 <= k < models.len() && #[trigger] models[k] == c {
            (choose|k: int|
                0 <= k < models.len() && #[trigger] models[k] == c && forall|j: int|
                    0 <= j < k ==> models[j] != c) as i32
        } else {
            -1i32
        },
        None => -1i32,
    }
}

/// The row of `current` among `models`, or -1.
pub fn selected_index_of(models: &[String], current: Option<&str>) -> (index: i32)
    ensures
        index == selected_position(
            crate::text::string_views(models@),
            match current {
                Some(c) => Some(c@),
                None => None,
            },
        ),
{
    let ghost ms = crate::text::string_views(models@);
    let c = match current {
        Some(c) => c,
        None => {
            return -1;
        },
    };
    let target = crate::text::chars_of(c);
    let mut k: usize = 0;
    while k < models.len()
        invariant
            k <= models@.len(),
            ms == crate::text::string_views(models@),
            target@ == c@,
            current == Some(c),
            forall|j: int| 0 <= j < k ==> ms[j] != c@,
        decreases models@.len() - k,
    {
        let m = crate::text::chars_of(models[k].as_str());
        assert(ms[k as int] == models@[k as int]@);
        if crate::hebrew_word_merge::chars_equal(m.as_slice(), target.as_slice()) {
            proof {
                let w = choose|q: int|
                    0 <= q < ms.len() && #[trigger] ms[q] == c@ && forall|j: int|
                        0 <= j < q ==> ms[j] != c@;
                assert(ms[k as int] == c@);
                if w != k {
                    if w < k {
                        assert(ms[w] != c@);
                    } else {
                        assert(ms[k as int] != c@);
                    }
                }
            }
            return #[verifier::truncate] (k as i32);
        }
        k = k + 1;
    }
    -1
}

/// The picker's rows: each model's name, the one at `selected_index` (if
/// any) selected; none navigates or has a size.
pub fn model_rows(models: &[String], selected_index: i32) -> (rows: Vec<FileListRow>)
    ensures
        rows@.len() == models@.len(),
        forall|k: int|
            0 <= k < rows@.len() ==> (#[trigger] rows@[k])@ == (FileListRowView {
                name: models@[k]@,
                size_label: Seq::empty(),
                is_selected: is_selected_index(k, selected_index),
                is_navigable: false,
            }),
{
    let mut rows: Vec<FileListRow> = Vec::new();
    let mut k: usize = 0;
    while k < models.len()
        invariant
            k <= models@.len(),
            rows@.len() == k,
            forall|q: int|
                0 <= q < k ==> (#[trigger] rows@[q])@ == (FileListRowView {
                    name: models@[q]@,
                    size_label: Seq::empty(),
                    is_selected: is_selected_index(q, selected_index),
                    is_navigable: false,
                }),
        decreases models@.len() - k,
    {
        rows.push(
            FileListRow {
                name: models[k].clone(),
                size_label: String::new(),
                is_selected: selected_at(k, selected_index),
                is_navigable: false,
            },
        );
        k = k + 1;
    }
    rows
}

/// What the language-model picker shows.
#[derive(Debug, Clone, PartialEq, Eq)]
pub struct ModelPickerView {
    /// The rows, one per model.
    pub rows: Vec<FileListRow>,
    /// The selected row, or -1.
    pub selected_index: i32,
    /// Whether the model list is still being fetched.
    pub loading: bool,
    /// Why the list could not be fetched, or empty.
    pub error: String,
    /// Whether the picker is open.
    pub is_open: bool,
}

/// The picker opened while the model list is fetched: no rows, nothing
/// selected, loading, no error.
pub fn open_dialog_loading() -> (view: ModelPickerView)
    ensures
        view.rows@.len() == 0,
        view.selected_index == -1,
        view.loading,
        view.error@.len() == 0,
        view.is_open,
{
    ModelPickerView {
        rows: Vec::new(),
        selected_index: -1,
        loading: true,
        error: String::new(),
        is_open: true,
    }
}

/// Applies the fetched model list (or why it failed) to the picker, which
/// stops loading: the models become the rows with `current` selected if it
/// is among them, and are handed back for later row clicks; a failure is
/// shown as the picker's error, and no model is handed back.
pub fn apply_models_result(
    view: &mut ModelPickerView,
    result: Result<Vec<String>, String>,
    current: Option<&str>,
) -> (models: Vec<String>)
    ensures
        !final(view).loading,
        final(view).is_open == old(view).is_open,
        match result {
            Ok(ms) => {
                &&& models@ == ms@
                &&& final(view).selected_index == selected_position(
                    crate::text::string_views(ms@),
                    match current {
                        Some(c) => Some(c@),
                        None => None,
                    },
                )
                &&& final(view).rows@.len() == ms@.len()
                &&& forall|k: int|
                    0 <= k < ms@.len() ==> (#[trigger] final(view).rows@[k])@ == (FileListRowView {
                        name: ms@[k]@,
                        size_label: Seq::empty(),
                        is_selected: is_selected_index(k, final(view).selected_index),
                        is_navigable: false,
                    })
                &&& final(view).error == old(view).error
            },
            Err(m) => {
                &&& models@.len() == 0
                &&& final(view).error@ == m@
                &&& final(view).rows == old(view).rows
                &&& final(view).selected_index == old(view).selected_index
            },
        },
{
    view.loading = false;
    match result {
        Ok(ms) => {
            let selected = selected_index_of(ms.as_slice(), current);
            view.rows = model_rows(ms.as_slice(), selected);
            view.selected_index = selected;
            ms
        },
        Err(m) => {
            view.error = m;
            Vec::new()
        },
    }
}

} // verus!
