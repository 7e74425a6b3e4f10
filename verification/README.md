# yap

Push-to-talk dictation: hold a hotkey, speak, release, and the transcript is
pasted into the focused application. Spoken commands are rewritten
("cargo run dash dash release" → `cargo run --release`).

## Layout

- `src/` — the verified library (Verus):
  - `text.rs` — transcript normalisation for command dictation;
  - `chars.rs` — character helpers (white space, lowercase, trimming, words);
  - `wav.rs` — 16 kHz mono 16-bit WAV writer and reader, with a proof that
    reading back a written file gives the samples;
  - `worker.rs` — the background worker's decisions, as a step function from
    state and event to next state and actions;
  - `hotkey.rs` — press/release edge detection, with a proof that events
    alternate;
  - `config.rs`, `history.rs`, `stt.rs`, `model.rs`, `keychain.rs` — paths
    (data under `<platform data dir>/yap/`, with a `whispr/` directory from
    earlier releases renamed to `yap/`), settings, history rows, model
    readiness, the SHA-256 check of the downloaded model archive and the
    keychain-backed API key.
- `app/` — the program around it: audio capture, the speech model and the
  cloud backend, SQLite history, clipboard paste, event tap, menu bar and UI.
- `tests/` — tests of the library.
