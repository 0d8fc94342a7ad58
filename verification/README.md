# dubrust

The verified core of a video dubbing studio, checked with Verus.

`src/` is the library. Every function in it is proved against its contract:

- `i18n` — the English and Russian interface texts and the messages that put
  numbers and names into them;
- `util` — decimal and zero-padded numbers, trimming, ellipsizing and the
  "last lines of a process output" summary;
- `project` — take file names, the search for a free take name, trash names,
  and the carry-over of recorded takes onto a fresh phrase split;
- `slicer` — the frame-level speech search (onset, hold, silence, tail,
  soft-attack backtracking) and what a slicing run reports;
- `session` — moving between phrases and finding the next one without a take;
- `video` — the ffmpeg check, MP4-like containers, frame sizes and where the
  takes go on the master track;
- `audio` — rules on recorded takes and downloaded weights;
- `models` — mix modes and slicing engines.

`app/` is a command-line program around the library: WAV input and output,
the floating-point signal processing (resampling, time stretching, voice
cleanup, the level detector, mixing), ffmpeg and ffprobe calls, project files,
model downloads and the optional neural background separation.

`tests/` exercises the library on concrete values.
