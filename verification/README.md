# open_recorder

The core of a screen recorder with automatic zoom on mouse clicks, as a library
verified with Verus, and the desktop shell around it.

- `src/` — the verified library:
  - `model/` — recording metadata, capture sources, mapping global points into a
    source, fitting the webcam overlay into the frame.
  - `capture/` — ffmpeg argument lists and binary lookup, the messages made of
    pointer events, the queue of pending messages and the input recorder,
    the metadata builder, and the choice and labelling of offered displays and
    windows.
  - `zoom/` — zoom segment generation from clicks (with its laws in
    `plan_laws.rs`), the timeline decisions used when sampling a zoom, the
    ffmpeg zoompan and overlay filter texts, and the paths stored beside a video.
  - `commands.rs` — the payloads offered to the frontend.
  - `text.rs`, `paths.rs` — decimal rendering and parsing, trimming, and the path
    helpers.
- `app/` — what cannot be verified: native capture (scap, cpal, nokhwa, the
  macOS event tap), threads, processes, files, serde, the floating-point zoom
  arithmetic, and the Tauri commands.
- `tests/` — the library's tests.
