//! TrangoPlayer's verified core: the playback state machine, subtitle-driven
//! cue navigation, the Hebrew niqud pronunciation pipeline, media-folder
//! listings and the practice-audio assembly plan.

pub mod playback;
pub mod text;
pub mod hebrew;
pub mod word_analysis;
pub mod niqud;
pub mod hebrew_word_merge;
pub mod niqud_pronunciation;
pub mod practice_audio;
pub mod tool_run;
pub mod vad;
pub mod audio_capture;
pub mod tokenizer;
pub mod decode;
pub mod dylib;
pub mod listing;
pub mod open_media_dialog;
pub mod model_picker;
pub mod vad_model_picker;
pub mod open_video_dialog;
pub mod open_subtitles_dialog;
pub mod ollama_model_picker;
pub mod ui_text;
pub mod config;
pub mod cli;
pub mod player_control;
pub mod subtitle_generation;
pub mod batch_run;
pub mod panel_events;
