# trango

The verified core of TrangoPlayer, a video player for language learners:
sentence-by-sentence navigation driven by subtitle timing, a Hebrew niqud
pronunciation pipeline, media-folder listings for its dialogs, the
decisions its panels and dialogs make (folder browsing, model choice, word
lookups, linking subtitles and translations), the practice-audio assembly
plan, voice-activity segmentation of recorded audio, and the rules of its
batch runs.

Layout:

- `src/` — the library, written and proved with Verus. Each module states
  its behaviour in `requires`/`ensures` contracts over spec functions;
  the `lemma_*` proof functions state properties that span several calls
  (navigation round trips, merge results, plan sizes, chunked pushes,
  dialog transitions).
- `tests/` — ordinary Rust tests of the library on concrete values.
- `app/` — a command-line program around the library: argument handling,
  logging, the settings file, the ONNX niqud model and external tools
  (`ffmpeg`, `espeak-ng`, `pactl`, the niqud CLI), and playback of a video
  in `mpv`. It does not build the graphical window; subtitle files are
  not parsed by it either, so it plays without cues. Several of its
  modules hold the glue those panels would use.
