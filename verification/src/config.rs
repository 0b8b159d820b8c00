//! The player's persisted settings and where they are kept: under
//! `$XDG_CONFIG_HOME`, or `$HOME/.config`, in `trango/config.toml`. Every
//! setting is optional, so a missing or partial file still gives a usable
//! configuration.
use vstd::prelude::*;
use crate::listing::{join_path, opt_view, path_join};

verus! {

/// The persisted settings. Paths are kept as text.
#[derive(Debug, Clone, PartialEq, Eq)]
pub struct TrangoConfig {
    /// The transcription model last picked.
    pub whisper_model_path: Option<String>,
    /// The folder the model picker was last browsing.
    pub whisper_model_folder: Option<String>,
    /// The language model last picked for sentence analysis.
    pub ollama_model: Option<String>,
    /// The language analyses are translated into, once edited.
    pub ollama_target_language: Option<String>,
    /// The niqud model file.
    pub niqud_model_path: Option<String>,
    /// The voice-activity model file.
    pub vad_model_path: Option<String>,
    /// The folder videos were last opened from.
    pub video_folder: Option<String>,
    /// The folder recordings are written to and opened from.
    pub audio_recording_folder: Option<String>,
    /// The audio source to record from, instead of detecting it.
    pub audio_monitor_source: Option<String>,
}

impl TrangoConfig {
    /// Whether no setting is set.
    pub open spec fn is_empty(&self) -> bool {
        &&& self.whisper_model_path is None
        &&& self.whisper_model_folder is None
        &&& self.ollama_model is None
        &&& self.ollama_target_language is None
        &&& self.niqud_model_path is None
        &&& self.vad_model_path is None
        &&& self.video_folder is None
        &&& self.audio_recording_folder is None
        &&& self.audio_monitor_source is None
    }

    /// The configuration with nothing set, as on a first run.
    pub fn default() -> (c: Self)
        ensures
            c.is_empty(),
    {
        TrangoConfig {
            whisper_model_path: None,
            whisper_model_folder: None,
            ollama_model: None,
            ollama_target_language: None,
            niqud_model_path: None,
            vad_model_path: None,
            video_folder: None,
            audio_recording_folder: None,
            audio_monitor_source: None,
        }
    }
}

/// The configuration folder: `xdg_config_home` when set and not empty,
/// else `home/.config` when `home` is set and not empty, else none.
pub open spec fn config_dir_of(xdg_config_home: Option<Seq<char>>, home: Option<Seq<char>>) -> Option<
    Seq<char>,
> {
    match xdg_config_home {
        Some(x) if x.len() > 0 => Some(x),
        _ => match home {
            Some(h) if h.len() > 0 => Some(path_join(h, ".config"@)),
            _ => None,
        },
    }
}

/// The value of an optional text argument.
pub open spec fn opt_str(o: Option<&str>) -> Option<Seq<char>> {
    match o {
        Some(s) => Some(s@),
        None => None,
    }
}

/// The configuration folder from the values of `XDG_CONFIG_HOME` and
/// `HOME` (see [`config_dir_of`]).
pub fn config_dir_from_env(xdg_config_home: Option<&str>, home: Option<&str>) -> (dir: Option<String>)
    ensures
        opt_view(dir) == config_dir_of(opt_str(xdg_config_home), opt_str(home)),
{
    match xdg_config_home {
        Some(x) => {
            if x.unicode_len() > 0 {
                return Some(String::from_str(x));
            }
        },
        None => {},
    }
    match home {
        Some(h) => {
            if h.unicode_len() > 0 {
                Some(join_path(h, ".config"))
            } else {
                None
            }
        },
        None => None,
    }
}

/// The configuration file inside configuration folder `dir`.
pub open spec fn config_file_in(dir: Seq<char>) -> Seq<char> {
    path_join(path_join(dir, "trango"@), "config.toml"@)
}

/// The configuration file's path from the values of `XDG_CONFIG_HOME` and
/// `HOME`: `trango/config.toml` in the configuration folder, or none.
pub fn config_path(xdg_config_home: Option<&str>, home: Option<&str>) -> (path: Option<String>)
    ensures
        opt_view(path) == (match config_dir_of(opt_str(xdg_config_home), opt_str(home)) {
            Some(dir) => Some(config_file_in(dir)),
            None => None,
        }),
{
    match config_dir_from_env(xdg_config_home, home) {
        Some(dir) => {
            let t = join_path(dir.as_str(), "trango");
            Some(join_path(t.as_str(), "config.toml"))
        },
        None => None,
    }
}

} // verus!
