# Purple Capture

A portable screen recorder for Windows: it records a monitor, a window or a
browser tab shared through a loopback WebRTC session to H.264/MP4, with system
audio and a microphone mixed in.

The crate is a Verus project. `src/` holds the recorder's logic with its
contracts and laws, proved by Verus; `app/` is the Windows program around it.

## Layout

| Path | What it holds |
|---|---|
| `src/audio.rs` | PCM mixing with clamping, the inputs a recording opens, cutting captured audio into chunks, and the pacing of the audio track |
| `src/capture.rs` | turning a captured BGRA frame into the bottom-up encoder image; frame time stamps and the pacing of the video track |
| `src/clock.rs` | the recording clock: time since the start, less the time paused, frozen once stopped |
| `src/recording.rs` | request validation, the plan of a recording (file names, size, bit rate), the recorder's state between commands, numbered and free file names |
| `src/stamp.rs` | the local start time and the `YYYY-MM-DD_HH-MM-SS` stamp in file names |
| `src/http.rs` | incremental reading of the share server's HTTP requests |
| `src/share_server.rs` | token-scoped routing, what each request does to the signalling state (offer, answer, stop) and what it is answered, response heads, the connection limit |
| `src/share.rs` | the state of the shared tab, the share window's commands, browser choice |
| `src/sources.rs` | capture source ids, and how monitors and windows are listed |
| `src/recovery.rs` | recordings kept after a failed save, and the names under which they may be saved again |
| `src/history.rs`, `src/sort.rs` | the recording history and the stable orderings behind it |
| `src/settings.rs`, `src/portable.rs`, `src/models.rs`, `src/text.rs` | preferences, the portable data folder name, shared data types and text helpers |
| `app/` | the Tauri program: windows and commands, the TCP loop of the share server, Windows.Graphics.Capture, WASAPI, Media Foundation, files |
| `tests/` | tests of the library, run against the real outside crates |
