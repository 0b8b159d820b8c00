//! What the player's panels and dialogs decide when the user acts on them:
//! where a click in a folder browser leads, which model or file a
//! confirmation picks and how it is remembered, when a word lookup may
//! start, and how the Open Subtitles dialog moves from one request to the
//! next. Each decision is a function from the current state and the event
//! to the next state and the action the front end carries out.
use vstd::prelude::*;
use crate::config::TrangoConfig;
use crate::listing::{opt_view, parent_of, path_parent};
use crate::model_picker::{entry_views, FolderEntry, FolderEntryView};
use crate::open_media_dialog::MediaKind;
use crate::open_media_dialog as media;
use crate::playback::PlayerState;
use crate::text::string_views;
use crate::word_analysis::WordAnalysis;

verus! {

/// Where a click on a folder-browser row leads.
#[derive(Debug, Clone, PartialEq, Eq)]
pub enum RowOutcome {
    /// List this folder instead (the parent row or a subfolder row).
    Navigate(String),
    /// Mark this row as the selection.
    Select(i32),
}

/// The value of a [`RowOutcome`].
pub enum RowOutcomeView {
    /// The folder to list.
    Navigate(Seq<char>),
    /// The row to mark.
    Select(i32),
}

impl View for RowOutcome {
    type V = RowOutcomeView;

    open spec fn view(&self) -> RowOutcomeView {
        match *self {
            RowOutcome::Navigate(p) => RowOutcomeView::Navigate(p@),
            RowOutcome::Select(i) => RowOutcomeView::Select(i),
        }
    }
}

/// A click on row `index` of a model browser listing `entries`: the parent
/// and subfolder rows lead into their folder; a model row, or an index
/// outside the listing, is marked as the selection.
pub open spec fn row_outcome(entries: Seq<FolderEntryView>, index: i32) -> RowOutcomeView {
    if 0 <= index < entries.len() {
        match entries[index as int] {
            FolderEntryView::Up(p) => RowOutcomeView::Navigate(p),
            FolderEntryView::Folder { path, .. } => RowOutcomeView::Navigate(path),
            FolderEntryView::Model { .. } => RowOutcomeView::Select(index),
        }
    } else {
        RowOutcomeView::Select(index)
    }
}

/// Decides a click on row `index` of a model browser (see [`row_outcome`]).
pub fn picker_row_event(entries: &[FolderEntry], index: i32) -> (r: RowOutcome)
    ensures
        r@ == row_outcome(entry_views(entries@), index),
{
    if 0 <= index && (index as usize) < entries.len() {
        match &entries[index as usize] {
            FolderEntry::Up(p) => RowOutcome::Navigate(p.clone()),
            FolderEntry::Folder { path, .. } => RowOutcome::Navigate(path.clone()),
            FolderEntry::Model(_) => RowOutcome::Select(index),
        }
    } else {
        RowOutcome::Select(index)
    }
}

/// A click on row `index` of the Open Video/Audio browser: as
/// [`row_outcome`], with file rows in place of model rows.
pub open spec fn media_row_outcome(entries: Seq<media::FolderEntryView>, index: i32) -> RowOutcomeView {
    if 0 <= index < entries.len() {
        match entries[index as int] {
            media::FolderEntryView::Up(p) => RowOutcomeView::Navigate(p),
            media::FolderEntryView::Folder { path, .. } => RowOutcomeView::Navigate(path),
            media::FolderEntryView::File { .. } => RowOutcomeView::Select(index),
        }
    } else {
        RowOutcomeView::Select(index)
    }
}

/// Decides a click on row `index` of the Open Video/Audio browser (see
/// [`media_row_outcome`]).
pub fn media_row_event(entries: &[media::FolderEntry], index: i32) -> (r: RowOutcome)
    ensures
        r@ == media_row_outcome(media::entry_views(entries@), index),
{
    if 0 <= index && (index as usize) < entries.len() {
        match &entries[index as usize] {
            media::FolderEntry::Up(p) => RowOutcome::Navigate(p.clone()),
            media::FolderEntry::Folder { path, .. } => RowOutcome::Navigate(path.clone()),
            media::FolderEntry::File(_) => RowOutcome::Select(index),
        }
    } else {
        RowOutcome::Select(index)
    }
}

/// The model path confirmed with row `selected` marked: the marked row's
/// model, when the mark is on a model row.
pub open spec fn chosen_model(entries: Seq<FolderEntryView>, selected: i32) -> Option<Seq<char>> {
    if 0 <= selected < entries.len() {
        match entries[selected as int] {
            FolderEntryView::Model { path, .. } => Some(path),
            _ => None,
        }
    } else {
        None
    }
}

/// Confirms a model browser with row `selected` marked: the chosen model's
/// path and the folder it lies in, or `None` when no model row is marked
/// (the dialog then stays open).
pub fn confirm_model(entries: &[FolderEntry], selected: i32) -> (r: Option<(String, Option<String>)>)
    ensures
        match chosen_model(entry_views(entries@), selected) {
            Some(p) => r matches Some((path, folder)) && path@ == p && opt_view(folder)
                == path_parent(p),
            None => r is None,
        },
{
    if 0 <= selected && (selected as usize) < entries.len() {
        match &entries[selected as usize] {
            FolderEntry::Model(m) => {
                let folder = parent_of(m.path.as_str());
                Some((m.path.clone(), folder))
            },
            _ => None,
        }
    } else {
        None
    }
}

/// The media file confirmed with row `selected` of the Open Video/Audio
/// browser marked: the marked row's file, when the mark is on a file row.
pub open spec fn chosen_media(entries: Seq<media::FolderEntryView>, selected: i32) -> Option<
    Seq<char>,
> {
    if 0 <= selected < entries.len() {
        match entries[selected as int] {
            media::FolderEntryView::File { path, .. } => Some(path),
            _ => None,
        }
    } else {
        None
    }
}

/// Confirms the Open Video/Audio browser with row `selected` marked (see
/// [`chosen_media`]).
pub fn confirm_media(entries: &[media::FolderEntry], selected: i32) -> (r: Option<String>)
    ensures
        opt_view(r) == chosen_media(media::entry_views(entries@), selected),
{
    if 0 <= selected && (selected as usize) < entries.len() {
        match &entries[selected as usize] {
            media::FolderEntry::File(f) => Some(f.path.clone()),
            _ => None,
        }
    } else {
        None
    }
}

/// Confirms the language-model list with row `selected` marked: that
/// row's model name, if the row exists.
pub fn confirm_ollama_model(models: &[String], selected: i32) -> (r: Option<String>)
    ensures
        match r {
            Some(m) => 0 <= selected < models@.len() && m@ == models@[selected as int]@,
            None => !(0 <= selected < models@.len()),
        },
{
    if 0 <= selected && (selected as usize) < models.len() {
        Some(models[selected as usize].clone())
    } else {
        None
    }
}

/// `config` remembering the transcription model `path`, picked in `folder`.
pub fn with_whisper_model(config: TrangoConfig, path: String, folder: Option<String>) -> (c:
    TrangoConfig)
    ensures
        c == (TrangoConfig { whisper_model_path: Some(path), whisper_model_folder: folder, ..config }),
{
    TrangoConfig { whisper_model_path: Some(path), whisper_model_folder: folder, ..config }
}

/// `config` remembering the niqud model `path`.
pub fn with_niqud_model(config: TrangoConfig, path: String) -> (c: TrangoConfig)
    ensures
        c == (TrangoConfig { niqud_model_path: Some(path), ..config }),
{
    TrangoConfig { niqud_model_path: Some(path), ..config }
}

/// `config` remembering the language model `model`.
pub fn with_ollama_model(config: TrangoConfig, model: String) -> (c: TrangoConfig)
    ensures
        c == (TrangoConfig { ollama_model: Some(model), ..config }),
{
    TrangoConfig { ollama_model: Some(model), ..config }
}

/// `config` remembering the analysis language `language`.
pub fn with_target_language(config: TrangoConfig, language: String) -> (c: TrangoConfig)
    ensures
        c == (TrangoConfig { ollama_target_language: Some(language), ..config }),
{
    TrangoConfig { ollama_target_language: Some(language), ..config }
}

/// The folder a file of `kind` opened from `media_path` is remembered by:
/// the file's parent, unless it has none or it is empty.
pub open spec fn remembered_folder(media_path: Seq<char>) -> Option<Seq<char>> {
    match path_parent(media_path) {
        Some(f) => if f.len() > 0 {
            Some(f)
        } else {
            None
        },
        None => None,
    }
}

/// `config` after a file of `kind` is opened from `media_path`: the
/// folder of that kind becomes the file's folder (see
/// [`remembered_folder`]); when there is none, `config` is unchanged.
pub fn with_media_folder(config: TrangoConfig, kind: MediaKind, media_path: &str) -> (c:
    TrangoConfig)
    ensures
        match remembered_folder(media_path@) {
            Some(f) => match kind {
                MediaKind::Video => opt_view(c.video_folder) == Some(f) && c == (TrangoConfig {
                    video_folder: c.video_folder,
                    ..config
                }),
                MediaKind::Audio => opt_view(c.audio_recording_folder) == Some(f) && c == (TrangoConfig {
                    audio_recording_folder: c.audio_recording_folder,
                    ..config
                }),
            },
            None => c == config,
        },
{
    match parent_of(media_path) {
        Some(f) => {
            if f.as_str().unicode_len() > 0 {
                match kind {
                    MediaKind::Video => TrangoConfig { video_folder: Some(f), ..config },
                    MediaKind::Audio => TrangoConfig { audio_recording_folder: Some(f), ..config },
                }
            } else {
                config
            }
        },
        None => config,
    }
}

/// Whether the sentence panel shows what the player state holds: always
/// for the video panel; for the audio panel only once a recording is
/// loaded there.
pub fn panel_content_ready(audio_panel: bool, media_ready: bool) -> (b: bool)
    ensures
        b == (!audio_panel || media_ready),
{
    !audio_panel || media_ready
}

/// The cue in focus: the cursor's cue, when the panel shows the player
/// state and the cursor is on one of its `cue_count` cues.
pub open spec fn focused_cue(panel_ready: bool, cursor: Option<usize>, cue_count: nat) -> Option<
    usize,
> {
    if panel_ready {
        match cursor {
            Some(i) => if i < cue_count {
                Some(i)
            } else {
                None
            },
            None => None,
        }
    } else {
        None
    }
}

/// The value of a lookup request's answer.
pub open spec fn request_view(r: Result<usize, String>) -> Result<usize, Seq<char>> {
    match r {
        Ok(i) => Ok(i),
        Err(e) => Err(e@),
    }
}

/// A word-analysis request: refused, with the message shown in its popup,
/// when no language model is chosen, else when no subtitle is linked, else
/// when no sentence is in focus; otherwise it analyses the focused cue.
pub open spec fn analysis_request_of(has_model: bool, has_subtitle: bool, focused: Option<usize>) -> Result<
    usize,
    Seq<char>,
> {
    if !has_model {
        Err("Select an Ollama model first."@)
    } else if !has_subtitle {
        Err("Link a subtitle first."@)
    } else {
        match focused {
            Some(i) => Ok(i),
            None => Err("No sentence is currently in focus."@),
        }
    }
}

/// A word-timing request: refused when no transcription model is chosen,
/// else when no video or audio file is open, else when no sentence is in
/// focus; otherwise it times the words of the focused cue.
pub open spec fn timing_request_of(has_model: bool, has_media: bool, focused: Option<usize>) -> Result<
    usize,
    Seq<char>,
> {
    if !has_model {
        Err("Select a whisper model first."@)
    } else if !has_media {
        Err("Open a video or audio file first."@)
    } else {
        match focused {
            Some(i) => Ok(i),
            None => Err("No sentence is currently in focus."@),
        }
    }
}

/// The cue in focus in `state` (see [`focused_cue`]).
fn focused_index(panel_ready: bool, state: &PlayerState) -> (r: Option<usize>)
    ensures
        r == focused_cue(panel_ready, state.current_cue_index, state.cues@.len()),
{
    if panel_ready {
        match state.current_cue_index {
            Some(i) => if i < state.cues.len() {
                Some(i)
            } else {
                None
            },
            None => None,
        }
    } else {
        None
    }
}

/// Decides a word-analysis request (Ctrl+A): the index of the cue to
/// analyse, or the message to show (see [`analysis_request_of`]).
pub fn word_analysis_request(
    model: Option<&str>,
    subtitle: Option<&str>,
    panel_ready: bool,
    state: &PlayerState,
) -> (r: Result<usize, String>)
    ensures
        request_view(r) == analysis_request_of(
            model is Some,
            subtitle is Some,
            focused_cue(panel_ready, state.current_cue_index, state.cues@.len()),
        ),
{
    if model.is_none() {
        return Err(String::from_str("Select an Ollama model first."));
    }
    if subtitle.is_none() {
        return Err(String::from_str("Link a subtitle first."));
    }
    match focused_index(panel_ready, state) {
        Some(i) => Ok(i),
        None => Err(String::from_str("No sentence is currently in focus.")),
    }
}

/// Decides a word-timing request (Ctrl+W): the index of the cue whose words
/// to time, or the message to show (see [`timing_request_of`]).
pub fn word_timing_request(
    model: Option<&str>,
    media: Option<&str>,
    panel_ready: bool,
    state: &PlayerState,
) -> (r: Result<usize, String>)
    ensures
        request_view(r) == timing_request_of(
            model is Some,
            media is Some,
            focused_cue(panel_ready, state.current_cue_index, state.cues@.len()),
        ),
{
    if model.is_none() {
        return Err(String::from_str("Select a whisper model first."));
    }
    if media.is_none() {
        return Err(String::from_str("Open a video or audio file first."));
    }
    match focused_index(panel_ready, state) {
        Some(i) => Ok(i),
        None => Err(String::from_str("No sentence is currently in focus.")),
    }
}

/// The cached analysis the word-analysis popup shows at once: the cue's
/// cache entry, unless there is none or it has no words (what a batch run
/// leaves for a cue that kept failing), in which case the sentence is
/// analysed again.
pub fn popup_cache_hit(cached: Option<&WordAnalysis>) -> (r: Option<&WordAnalysis>)
    ensures
        r == match cached {
            Some(a) => if a.words@.len() > 0 {
                Some(a)
            } else {
                None
            },
            None => None,
        },
{
    match cached {
        Some(a) => if a.words.len() > 0 {
            Some(a)
        } else {
            None
        },
        None => None,
    }
}

/// The state the Open Subtitles dialog works on: the open media file, the
/// subtitle files linked to it, the chosen transcription model, and the
/// translation picker's listing and marked row.
#[derive(Debug, Clone, PartialEq, Eq)]
pub struct SubtitlesDialogState {
    /// The open video or audio file.
    pub media_path: Option<String>,
    /// The original-language subtitle file loaded with it.
    pub subtitle_path: Option<String>,
    /// The translation subtitle file linked to it.
    pub translation_path: Option<String>,
    /// The transcription model subtitles are generated with.
    pub whisper_model: Option<String>,
    /// The subtitle files the translation picker lists.
    pub translation_entries: Vec<String>,
    /// The picker's marked row (`-1` for none).
    pub translation_selected: i32,
}

/// The value of a [`SubtitlesDialogState`].
pub struct SubtitlesDialogStateView {
    pub media_path: Option<Seq<char>>,
    pub subtitle_path: Option<Seq<char>>,
    pub translation_path: Option<Seq<char>>,
    pub whisper_model: Option<Seq<char>>,
    pub translation_entries: Seq<Seq<char>>,
    pub translation_selected: i32,
}

impl View for SubtitlesDialogState {
    type V = SubtitlesDialogStateView;

    open spec fn view(&self) -> SubtitlesDialogStateView {
        SubtitlesDialogStateView {
            media_path: opt_view(self.media_path),
            subtitle_path: opt_view(self.subtitle_path),
            translation_path: opt_view(self.translation_path),
            whisper_model: opt_view(self.whisper_model),
            translation_entries: string_views(self.translation_entries@),
            translation_selected: self.translation_selected,
        }
    }
}

impl SubtitlesDialogState {
    /// No media open, nothing linked, no model chosen, an empty picker.
    pub fn new() -> (s: Self)
        ensures
            s@ == (SubtitlesDialogStateView {
                media_path: None,
                subtitle_path: None,
                translation_path: None,
                whisper_model: None,
                translation_entries: Seq::empty(),
                translation_selected: -1i32,
            }),
    {
        let s = SubtitlesDialogState {
            media_path: None,
            subtitle_path: None,
            translation_path: None,
            whisper_model: None,
            translation_entries: Vec::new(),
            translation_selected: -1,
        };
        assert(s@.translation_entries =~= Seq::<Seq<char>>::empty());
        s
    }
}

/// What happens to the Open Subtitles dialog.
#[derive(Debug, Clone, PartialEq, Eq)]
pub enum SubtitlesEvent {
    /// A media file was opened, with the subtitle file loaded for it, if any.
    MediaOpened { media: String, subtitle: Option<String> },
    /// A transcription model was chosen.
    WhisperModelChosen(String),
    /// The dialog is asked for; `matching` is the media's same-stem
    /// subtitle file, if one exists.
    OpenRequested { matching: Option<String> },
    /// Subtitle generation is asked for.
    GenerateRequested,
    /// Generation wrote this subtitle file.
    Generated(String),
    /// Linking a translation is asked for.
    LinkTranslationRequested,
    /// The subtitle files found beside the media file.
    TranslationFilesListed(Vec<String>),
    /// A translation picker row was clicked.
    TranslationRowSelected(i32),
    /// The translation picker was confirmed.
    ConfirmTranslation,
    /// Loading `original` (with `translation`) succeeded or not.
    SubtitlesLoaded { original: String, translation: Option<String>, ok: bool },
}

/// The value of a [`SubtitlesEvent`].
pub enum SubtitlesEventView {
    MediaOpened { media: Seq<char>, subtitle: Option<Seq<char>> },
    WhisperModelChosen(Seq<char>),
    OpenRequested { matching: Option<Seq<char>> },
    GenerateRequested,
    Generated(Seq<char>),
    LinkTranslationRequested,
    TranslationFilesListed(Seq<Seq<char>>),
    TranslationRowSelected(i32),
    ConfirmTranslation,
    SubtitlesLoaded { original: Seq<char>, translation: Option<Seq<char>>, ok: bool },
}

impl View for SubtitlesEvent {
    type V = SubtitlesEventView;

    open spec fn view(&self) -> SubtitlesEventView {
        match *self {
            SubtitlesEvent::MediaOpened { media, subtitle } => SubtitlesEventView::MediaOpened {
                media: media@,
                subtitle: opt_view(subtitle),
            },
            SubtitlesEvent::WhisperModelChosen(m) => SubtitlesEventView::WhisperModelChosen(m@),
            SubtitlesEvent::OpenRequested { matching } => SubtitlesEventView::OpenRequested {
                matching: opt_view(matching),
            },
            SubtitlesEvent::GenerateRequested => SubtitlesEventView::GenerateRequested,
            SubtitlesEvent::Generated(p) => SubtitlesEventView::Generated(p@),
            SubtitlesEvent::LinkTranslationRequested => SubtitlesEventView::LinkTranslationRequested,
            SubtitlesEvent::TranslationFilesListed(v) => SubtitlesEventView::TranslationFilesListed(
                string_views(v@),
            ),
            SubtitlesEvent::TranslationRowSelected(i) => SubtitlesEventView::TranslationRowSelected(i),
            SubtitlesEvent::ConfirmTranslation => SubtitlesEventView::ConfirmTranslation,
            SubtitlesEvent::SubtitlesLoaded { original, translation, ok } =>
                SubtitlesEventView::SubtitlesLoaded {
                original: original@,
                translation: opt_view(translation),
                ok,
            },
        }
    }
}

/// What the front end is to do next.
#[derive(Debug, Clone, PartialEq, Eq)]
pub enum SubtitlesAction {
    /// Show the dialog with these files linked.
    OpenDialog { original: Option<String>, translation: Option<String> },
    /// Show generation as failed, with this message.
    ShowGenerationError(String),
    /// Generate subtitles for `media` with `model`.
    StartGeneration { media: String, model: String },
    /// Load this subtitle file into the player, without a translation.
    LoadSubtitles(String),
    /// List the subtitle files in this folder (the media file's).
    ListTranslationFolder(String),
    /// Show the translation picker with the state's listing, nothing marked.
    OpenTranslationPicker,
    /// Show this picker row as marked.
    MarkTranslationSelected(i32),
    /// Close the translation picker.
    CloseTranslationPicker,
    /// Close the translation picker and load `original` with `translation`.
    LinkTranslation { original: String, translation: String },
    /// Open this media file again, so playback starts on the new cues.
    ReloadMedia(String),
    /// Show this file as the linked translation.
    MarkTranslationLinked(String),
}

/// The value of a [`SubtitlesAction`].
pub enum SubtitlesActionView {
    OpenDialog { original: Option<Seq<char>>, translation: Option<Seq<char>> },
    ShowGenerationError(Seq<char>),
    StartGeneration { media: Seq<char>, model: Seq<char> },
    LoadSubtitles(Seq<char>),
    ListTranslationFolder(Seq<char>),
    OpenTranslationPicker,
    MarkTranslationSelected(i32),
    CloseTranslationPicker,
    LinkTranslation { original: Seq<char>, translation: Seq<char> },
    ReloadMedia(Seq<char>),
    MarkTranslationLinked(Seq<char>),
}

impl View for SubtitlesAction {
    type V = SubtitlesActionView;

    open spec fn view(&self) -> SubtitlesActionView {
        match *self {
            SubtitlesAction::OpenDialog { original, translation } => SubtitlesActionView::OpenDialog {
                original: opt_view(original),
                translation: opt_view(translation),
            },
            SubtitlesAction::ShowGenerationError(m) => SubtitlesActionView::ShowGenerationError(m@),
            SubtitlesAction::StartGeneration { media, model } => SubtitlesActionView::StartGeneration {
                media: media@,
                model: model@,
            },
            SubtitlesAction::LoadSubtitles(p) => SubtitlesActionView::LoadSubtitles(p@),
            SubtitlesAction::ListTranslationFolder(p) => SubtitlesActionView::ListTranslationFolder(p@),
            SubtitlesAction::OpenTranslationPicker => SubtitlesActionView::OpenTranslationPicker,
            SubtitlesAction::MarkTranslationSelected(i) => SubtitlesActionView::MarkTranslationSelected(
                i,
            ),
            SubtitlesAction::CloseTranslationPicker => SubtitlesActionView::CloseTranslationPicker,
            SubtitlesAction::LinkTranslation { original, translation } =>
                SubtitlesActionView::LinkTranslation { original: original@, translation: translation@ },
            SubtitlesAction::ReloadMedia(p) => SubtitlesActionView::ReloadMedia(p@),
            SubtitlesAction::MarkTranslationLinked(p) => SubtitlesActionView::MarkTranslationLinked(p@),
        }
    }
}

/// The value of an optional action.
pub open spec fn action_view(a: Option<SubtitlesAction>) -> Option<SubtitlesActionView> {
    match a {
        Some(x) => Some(x@),
        None => None,
    }
}

/// The Open Subtitles dialog's transitions:
/// - opening a media file makes it the open file, with the subtitle file
///   loaded for it and no translation;
/// - the dialog opens only with a media file open, showing the loaded
///   subtitle file, else the same-stem one, as the original;
/// - generation needs an open media file (else nothing happens) and a
///   chosen model (else it fails with "Select a whisper model first.");
/// - a generated file is loaded; once loaded it becomes the original and
///   the media file is opened again;
/// - linking a translation lists the media file's folder (nothing happens
///   when it has none), then shows the
///   picker with nothing marked; a click marks a row; confirming with a row
///   marked closes the picker and, only when an original is loaded, loads
///   it with the marked file, which, once loaded, becomes the translation;
/// - a failed load changes nothing.
pub open spec fn subtitles_step(s: SubtitlesDialogStateView, e: SubtitlesEventView) -> (
    SubtitlesDialogStateView,
    Option<SubtitlesActionView>,
) {
    match e {
        SubtitlesEventView::MediaOpened { media, subtitle } => (
            SubtitlesDialogStateView {
                media_path: Some(media),
                subtitle_path: subtitle,
                translation_path: None,
                ..s
            },
            None,
        ),
        SubtitlesEventView::WhisperModelChosen(m) => (
            SubtitlesDialogStateView { whisper_model: Some(m), ..s },
            None,
        ),
        SubtitlesEventView::OpenRequested { matching } => match s.media_path {
            None => (s, None),
            Some(_) => (
                s,
                Some(
                    SubtitlesActionView::OpenDialog {
                        original: match s.subtitle_path {
                            Some(o) => Some(o),
                            None => matching,
                        },
                        translation: s.translation_path,
                    },
                ),
            ),
        },
        SubtitlesEventView::GenerateRequested => match s.media_path {
            None => (s, None),
            Some(media) => match s.whisper_model {
                None => (
                    s,
                    Some(SubtitlesActionView::ShowGenerationError("Select a whisper model first."@)),
                ),
                Some(model) => (s, Some(SubtitlesActionView::StartGeneration { media, model })),
            },
        },
        SubtitlesEventView::Generated(p) => (s, Some(SubtitlesActionView::LoadSubtitles(p))),
        SubtitlesEventView::LinkTranslationRequested => match s.media_path {
            None => (s, None),
            Some(media) => match path_parent(media) {
                None => (s, None),
                Some(folder) => (s, Some(SubtitlesActionView::ListTranslationFolder(folder))),
            },
        },
        SubtitlesEventView::TranslationFilesListed(files) => (
            SubtitlesDialogStateView { translation_entries: files, translation_selected: -1i32, ..s },
            Some(SubtitlesActionView::OpenTranslationPicker),
        ),
        SubtitlesEventView::TranslationRowSelected(i) => (
            SubtitlesDialogStateView { translation_selected: i, ..s },
            Some(SubtitlesActionView::MarkTranslationSelected(i)),
        ),
        SubtitlesEventView::ConfirmTranslation => {
            let i = s.translation_selected;
            if 0 <= i < s.translation_entries.len() {
                match s.subtitle_path {
                    None => (s, Some(SubtitlesActionView::CloseTranslationPicker)),
                    Some(o) => (
                        s,
                        Some(
                            SubtitlesActionView::LinkTranslation {
                                original: o,
                                translation: s.translation_entries[i as int],
                            },
                        ),
                    ),
                }
            } else {
                (s, None)
            }
        },
        SubtitlesEventView::SubtitlesLoaded { original, translation, ok } => if !ok {
            (s, None)
        } else {
            match translation {
                None => (
                    SubtitlesDialogStateView { subtitle_path: Some(original), ..s },
                    match s.media_path {
                        Some(m) => Some(SubtitlesActionView::ReloadMedia(m)),
                        None => None,
                    },
                ),
                Some(t) => (
                    SubtitlesDialogStateView { translation_path: Some(t), ..s },
                    Some(SubtitlesActionView::MarkTranslationLinked(t)),
                ),
            }
        },
    }
}

/// A copy of an optional string.
fn copy_opt(o: &Option<String>) -> (r: Option<String>)
    ensures
        opt_view(r) == opt_view(*o),
{
    match o {
        Some(s) => Some(s.clone()),
        None => None,
    }
}

/// Decides an event of the Open Subtitles dialog (see [`subtitles_step`]).
pub fn subtitles_dialog_event(state: SubtitlesDialogState, event: SubtitlesEvent) -> (r: (
    SubtitlesDialogState,
    Option<SubtitlesAction>,
))
    ensures
        r.0@ == subtitles_step(state@, event@).0,
        action_view(r.1) == subtitles_step(state@, event@).1,
{
    match event {
        SubtitlesEvent::MediaOpened { media, subtitle } => (
            SubtitlesDialogState {
                media_path: Some(media),
                subtitle_path: subtitle,
                translation_path: None,
                ..state
            },
            None,
        ),
        SubtitlesEvent::WhisperModelChosen(m) => (
            SubtitlesDialogState { whisper_model: Some(m), ..state },
            None,
        ),
        SubtitlesEvent::OpenRequested { matching } => {
            if state.media_path.is_none() {
                return (state, None);
            }
            let original = match &state.subtitle_path {
                Some(o) => Some(o.clone()),
                None => matching,
            };
            let translation = copy_opt(&state.translation_path);
            (state, Some(SubtitlesAction::OpenDialog { original, translation }))
        },
        SubtitlesEvent::GenerateRequested => {
            let media = match &state.media_path {
                Some(m) => m.clone(),
                None => {
                    return (state, None);
                },
            };
            match &state.whisper_model {
                None => (
                    state,
                    Some(
                        SubtitlesAction::ShowGenerationError(
                            String::from_str("Select a whisper model first."),
                        ),
                    ),
                ),
                Some(model) => {
                    let model = model.clone();
                    (state, Some(SubtitlesAction::StartGeneration { media, model }))
                },
            }
        },
        SubtitlesEvent::Generated(p) => (state, Some(SubtitlesAction::LoadSubtitles(p))),
        SubtitlesEvent::LinkTranslationRequested => match &state.media_path {
            None => (state, None),
            Some(m) => match parent_of(m.as_str()) {
                None => (state, None),
                Some(folder) => (state, Some(SubtitlesAction::ListTranslationFolder(folder))),
            },
        },
        SubtitlesEvent::TranslationFilesListed(files) => (
            SubtitlesDialogState { translation_entries: files, translation_selected: -1, ..state },
            Some(SubtitlesAction::OpenTranslationPicker),
        ),
        SubtitlesEvent::TranslationRowSelected(i) => (
            SubtitlesDialogState { translation_selected: i, ..state },
            Some(SubtitlesAction::MarkTranslationSelected(i)),
        ),
        SubtitlesEvent::ConfirmTranslation => {
            let i = state.translation_selected;
            if 0 <= i && (i as usize) < state.translation_entries.len() {
                let translation = state.translation_entries[i as usize].clone();
                match &state.subtitle_path {
                    None => (state, Some(SubtitlesAction::CloseTranslationPicker)),
                    Some(o) => {
                        let original = o.clone();
                        (state, Some(SubtitlesAction::LinkTranslation { original, translation }))
                    },
                }
            } else {
                (state, None)
            }
        },
        SubtitlesEvent::SubtitlesLoaded { original, translation, ok } => {
            if !ok {
                return (state, None);
            }
            match translation {
                None => {
                    let reload = match &state.media_path {
                        Some(m) => Some(SubtitlesAction::ReloadMedia(m.clone())),
                        None => None,
                    };
                    (SubtitlesDialogState { subtitle_path: Some(original), ..state }, reload)
                },
                Some(t) => {
                    let shown = t.clone();
                    (
                        SubtitlesDialogState { translation_path: Some(t), ..state },
                        Some(SubtitlesAction::MarkTranslationLinked(shown)),
                    )
                },
            }
        },
    }
}

/// A translation is only ever linked to a loaded original: confirming the
/// translation picker changes no state, and asks to load a translation
/// only while an original subtitle is loaded, and then with that original.
pub proof fn lemma_translation_needs_original(s: SubtitlesDialogStateView)
    ensures
        subtitles_step(s, SubtitlesEventView::ConfirmTranslation).0 == s,
        match subtitles_step(s, SubtitlesEventView::ConfirmTranslation).1 {
            Some(SubtitlesActionView::LinkTranslation { original, .. }) => s.subtitle_path == Some(
                original,
            ),
            _ => true,
        },
{
}

/// A failed load changes nothing and asks for nothing.
pub proof fn lemma_failed_load_changes_nothing(
    s: SubtitlesDialogStateView,
    original: Seq<char>,
    translation: Option<Seq<char>>,
)
    ensures
        subtitles_step(
            s,
            SubtitlesEventView::SubtitlesLoaded { original, translation, ok: false },
        ) == (s, None::<SubtitlesActionView>),
{
}

} // verus!
