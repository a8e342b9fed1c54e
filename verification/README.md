# mofa_studio

The logic of MoFA Studio, a desktop voice chat application, as a library
whose behaviour is stated in contracts and proved with Verus.

## Layout

- `src/` — the verified library.
  - `providers`, `preferences`, `settings_view`: AI provider models, the
    user's preferences (upsert, removal, merge with the built-in catalogue,
    model sync, API key environment) and what the settings screen shows.
  - `audio_buffer`: the playback ring buffer with per-participant segments
    and the playback thread's command handling.
  - `metrics`: the metrics store (agents, capped trace and snapshot
    histories, dirty flags).
  - `asr`, `asr_screen`: the ASR dataflow worker's state machine and the
    speech recognition screen's decisions.
  - `chat`: the chat viewer bridge (payload text, JSON or plain messages,
    connection state).
  - `logs`: log history, filters and panel texts, chat panel texts.
  - `role_config`, `voice`, `voice_clone`: role configs and dataflow voice
    settings, voice names, and the voice cloning dialog's rules.
  - `apps`: how each app is listed in the shell.
  - `text`, `pattern`: string helpers and the trusted items for Unicode
    tables and the `regex` crate.
- `tests/` — tests of the library.
- `app/` — the runtime around it: preference and role files, the metrics
  HTTP/WebSocket server, the audio playback and ASR worker threads, and the
  audio file helpers.
