# slp_chat

A peer-to-peer chat client for games, with text, images, voice and webcam
frames. This crate is its verified core, written in Verus.

Layout:

- `src/` — the library, every function proved against its contract:
  - `protocol` — the tag-byte wire format, with proofs that decoding inverts
    encoding and that distinct messages encode differently;
  - `chat`, `peer_map` — the chat log and the per-peer maps (names, avatars,
    colors, bios, UUIDs, webcam frames);
  - `session` — the session state machine: what each incoming message, send,
    profile edit and webcam tick does, returned as effects for the client to
    perform; includes the proof that each announcing peer is answered once;
  - `profile`, `paths`, `config` — stored conversations (stable
    most-recent-first ordering), the small profile files and their round
    trips, file locations, start-on-login entries;
  - `theme`, `digits`, `text`, `clock`, `overlay`, `voice`, `connect`,
    `avatar` — hex colors, number parsing and printing, trimming, `HH:MM`
    labels, overlay layout, the open-mic gate, handshake profiles and
    push-to-talk keys, 128×128 avatars.
- `tests/` — tests of the library on concrete values.
- `app/` — the desktop client (egui windows, audio, webcam, networking, file
  I/O) that performs the effects the library returns.
