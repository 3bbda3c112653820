# effigy_video_compressor

The verified core of a Windows desktop video compressor that drives FFmpeg.

- `src/` is the library, verified with Verus:
  - `text` — character-level utilities (search, trim, words, lines, decimal
    formatting and parsing) stated over `Seq<char>`;
  - `args` — FFmpeg argument lists: replacing a flag's value, two-pass
    additions, bitrate updates;
  - `budget` — the bitrate correction after a size overshoot;
  - `encode` — output format checks, output names, and the video, audio,
    output and analysis-pass arguments of an encode;
  - `geometry` — display orientation, resolution boxes, downscaling, and the
    candidate output resolutions;
  - `zones` — x264/x265 bitrate zones (merging and writing);
  - `gpu`, `hardware` — adapter names, the hardware-encoder tests and the
    order they run in;
  - `install` — reading FFmpeg's version and SVT-AV1 reports;
  - `queue` — whether a compression queue may start, and for each file what
    follows each FFmpeg run (output pass, size-correcting reruns, outcome),
    and the queue's report of one settled result per file, in order;
  - `events` — reports to the interface and close-request handling;
  - `base64` — thumbnail encoding, with decoding stated to prove it lossless.
- `tests/` exercises the library on concrete values.
- `app/` is the Tauri application around it: processes, files, dialogs, the
  tray, and the floating-point media analysis (bitrate budgets, motion and
  quality probes, scene weights, frame-rate choice).
