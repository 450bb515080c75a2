# messenger

The verified core of a multi-platform messenger client with a Discord
backend. The functions under `src/` are proved by Verus against their
`requires` / `ensures` contracts, except eight small `external_body`
wrappers around outside calls (`str::trim`, `str::from_utf8`, `String::push`,
base64 encoding, percent-encoding, RFC 3339 parsing, and XChaCha20-Poly1305
encryption and decryption), whose contracts are trusted. `app/` holds the
unverified rest (JSON copies of the library's types, floating-point audio
processing, socket helpers). Opus coding and the DAVE end-to-end layer are
not part of this crate.

## Layout of `src/`

- `text`, `types`, `rich` — string helpers, the messenger data model, and the
  message-markup tokenizer (bold, italic, links, custom emoji).
- `api`, `convert`, `cdn`, `auth` — Discord REST shapes, their conversion into
  the data model, CDN image locations, login flow and request building.
- `recording`, `gateway`, `roster`, `channels` — folding gateway events onto
  REST snapshots, dispatch decisions, voice-channel rosters, guild and DM
  channel ordering.
- `rtp`, `encryption`, `crypto`, `voice`, `voice_payloads`, `voice_state`,
  `playback`, `audio_session` — voice transport: RTP header layout and
  extensions, AEAD sealing of voice frames, voice-gateway handshake and DAVE
  transitions, routing of incoming frames, the outgoing audio loop's
  decisions.
- `ring` — a fixed-capacity ring that overwrites its oldest entry.
- `legacy`, `legacy_rest` — the first-generation data model and adaptor
  decisions.

Laws spanning several functions are public proof functions named `law_*`.

## Checking

Tests under `tests/` exercise the library on concrete values.
