//! System-audio capture decisions: finding the default output's monitor
//! source from `pactl`'s answer, the `ffmpeg` recording command, and the
//! errors of starting and stopping a recording. The processes themselves
//! are run by the caller.
use vstd::prelude::*;
use crate::text::{
    append_str, last_line_or, last_stderr_line, push_string, string_from_chars, string_views,
    trim_string, trim_ws,
};
use crate::tool_run::ToolRun;

verus! {

/// Errors of capturing system audio. Each message is ready to show.
#[derive(Debug, Clone, PartialEq, Eq)]
pub enum AudioCaptureError {
    /// Running an external tool (`pactl`, `ffmpeg`) failed, or `pactl`
    /// reported no default output.
    CaptureFailed(String),
    /// A recording was started while one was already running.
    AlreadyRunning,
    /// A recording was stopped while none was running.
    NotRunning,
}

impl AudioCaptureError {
    /// The error's message.
    pub fn message(&self) -> (m: String)
        ensures
            m@ == (match *self {
                AudioCaptureError::CaptureFailed(e) => e@,
                AudioCaptureError::AlreadyRunning => "audio capture is already running"@,
                AudioCaptureError::NotRunning => "audio capture is not running"@,
            }),
    {
        match self {
            AudioCaptureError::CaptureFailed(e) => e.clone(),
            AudioCaptureError::AlreadyRunning => String::from_str("audio capture is already running"),
            AudioCaptureError::NotRunning => String::from_str("audio capture is not running"),
        }
    }
}

/// The monitor source of the default output, from a run of
/// `pactl get-default-sink` (at `pactl_path`) and its output: a missing
/// `pactl`, a failure to start it or a failed exit is an error explaining
/// it; otherwise the output, trimmed, names the default sink, whose monitor
/// source is the sink's name with `.monitor` appended; an empty name is an
/// error.
pub open spec fn monitor_source_of(pactl_path: Seq<char>, run: ToolRun, stdout: Seq<char>) -> Result<
    Seq<char>,
    Seq<char>,
> {
    match run {
        ToolRun::NotFound => Err(
            "pactl not found (looked for \""@ + pactl_path
                + "\"). Install PulseAudio/PipeWire's pactl utility, or set audio_monitor_source in config.toml instead of relying on autodetection — see docs/src/usage."@,
        ),
        ToolRun::SpawnFailed(e) => Err("failed to run pactl: "@ + e@),
        ToolRun::Exited { success, status, stderr } => if !success {
            Err("pactl exited with "@ + status@ + ": "@ + last_line_or(stderr@, "no error output"@))
        } else if trim_ws(stdout).len() == 0 {
            Err("pactl get-default-sink reported no default sink"@)
        } else {
            Ok(trim_ws(stdout) + ".monitor"@)
        },
    }
}

/// The default output's monitor source from `pactl get-default-sink`'s
/// run and output, as [`monitor_source_of`] says.
pub fn default_monitor_source(pactl_path: &str, run: ToolRun, stdout: &str) -> (r: Result<
    String,
    AudioCaptureError,
>)
    ensures
        match monitor_source_of(pactl_path@, run, stdout@) {
            Ok(s) => r matches Ok(src) && src@ == s,
            Err(m) => r matches Err(e) && e matches AudioCaptureError::CaptureFailed(msg) && msg@
                == m,
        },
{
    match run {
        ToolRun::NotFound => {
            let mut v: Vec<char> = Vec::new();
            append_str(&mut v, "pactl not found (looked for \"");
            append_str(&mut v, pactl_path);
            append_str(
                &mut v,
                "\"). Install PulseAudio/PipeWire's pactl utility, or set audio_monitor_source in config.toml instead of relying on autodetection — see docs/src/usage.",
            );
            Err(AudioCaptureError::CaptureFailed(string_from_chars(v.as_slice())))
        },
        ToolRun::SpawnFailed(e) => {
            let mut v: Vec<char> = Vec::new();
            append_str(&mut v, "failed to run pactl: ");
            append_str(&mut v, e.as_str());
            Err(AudioCaptureError::CaptureFailed(string_from_chars(v.as_slice())))
        },
        ToolRun::Exited { success, status, stderr } => {
            if !success {
                let mut v: Vec<char> = Vec::new();
                append_str(&mut v, "pactl exited with ");
                append_str(&mut v, status.as_str());
                append_str(&mut v, ": ");
                let line = last_stderr_line(stderr.as_str());
                append_str(&mut v, line.as_str());
                return Err(AudioCaptureError::CaptureFailed(string_from_chars(v.as_slice())));
            }
            let sink = trim_string(stdout);
            if sink.as_str().unicode_len() == 0 {
                return Err(
                    AudioCaptureError::CaptureFailed(
                        String::from_str("pactl get-default-sink reported no default sink"),
                    ),
                );
            }
            let mut v: Vec<char> = Vec::new();
            append_str(&mut v, sink.as_str());
            append_str(&mut v, ".monitor");
            Ok(string_from_chars(v.as_slice()))
        },
    }
}

/// `ffmpeg`'s arguments to record `monitor_source` to `output_path` as
/// 16 kHz mono 16-bit PCM.
pub open spec fn capture_args(monitor_source: Seq<char>, output_path: Seq<char>) -> Seq<Seq<char>> {
    seq![
        "-y"@,
        "-f"@,
        "pulse"@,
        "-i"@,
        monitor_source,
        "-ar"@,
        "16000"@,
        "-ac"@,
        "1"@,
        "-c:a"@,
        "pcm_s16le"@,
        output_path,
    ]
}

/// `ffmpeg`'s arguments to record `monitor_source` to `output_path`.
pub fn capture_command(monitor_source: &str, output_path: &str) -> (args: Vec<String>)
    ensures
        string_views(args@) == capture_args(monitor_source@, output_path@),
{
    let mut args: Vec<String> = Vec::new();
    push_string(&mut args, "-y");
    push_string(&mut args, "-f");
    push_string(&mut args, "pulse");
    push_string(&mut args, "-i");
    push_string(&mut args, monitor_source);
    push_string(&mut args, "-ar");
    push_string(&mut args, "16000");
    push_string(&mut args, "-ac");
    push_string(&mut args, "1");
    push_string(&mut args, "-c:a");
    push_string(&mut args, "pcm_s16le");
    push_string(&mut args, output_path);
    assert(string_views(args@) =~= capture_args(monitor_source@, output_path@));
    args
}

/// The error for `ffmpeg` (at `ffmpeg_path`) failing to start a
/// recording: `not_found` when the binary is missing, otherwise the
/// system's reason `reason`.
pub fn start_failure(ffmpeg_path: &str, not_found: bool, reason: &str) -> (e: AudioCaptureError)
    ensures
        e matches AudioCaptureError::CaptureFailed(m) && m@ == (if not_found {
            "ffmpeg not found (looked for \""@ + ffmpeg_path@
                + "\"). Install ffmpeg and make sure it's on PATH, or set TRANGO_FFMPEG_PATH to its location — see docs/src/usage."@
        } else {
            "failed to start ffmpeg: "@ + reason@
        }),
{
    let mut v: Vec<char> = Vec::new();
    if not_found {
        append_str(&mut v, "ffmpeg not found (looked for \"");
        append_str(&mut v, ffmpeg_path);
        append_str(
            &mut v,
            "\"). Install ffmpeg and make sure it's on PATH, or set TRANGO_FFMPEG_PATH to its location — see docs/src/usage.",
        );
    } else {
        append_str(&mut v, "failed to start ffmpeg: ");
        append_str(&mut v, reason);
    }
    AudioCaptureError::CaptureFailed(string_from_chars(v.as_slice()))
}

} // verus!
