# vibevoice_tts_provider

A gRPC text-to-speech provider that relays streamed audio from a VibeVoice
server and shows live progress in a terminal monitor.

`src/` is the verified library (Verus):

- `config` – configuration types, defaults and voice lookup;
- `cli` – the command-line options;
- `sse` – the server-sent-event decoder for the VibeVoice answer;
- `vibevoice` – the speech request, status check, Base64/PCM decoding and what
  each event of the answer means;
- `service` – the per-request relay state machine of `Synthesize`;
- `tui` – the monitor's state (`state`), text shortening (`text`) and screen
  helpers (`display`);
- `strings`, `clock` – character-level helpers and clock readings.

`app/` is the program around it: file and network I/O, tonic/gRPC, the
terminal, and serde/thiserror copies of the library's types.
