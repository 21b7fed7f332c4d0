# harbour_chat

The Harbour Chat API service: servers, channels, direct messages, a link
board with votes and threaded comments, voice signalling and encrypted
storage of messages and attachments.

## Layout

- `src/` is the verified library. The rules the service applies are
  functions here with `requires`/`ensures` contracts checked by Verus:
  identity at the gateway boundary, membership and moderation checks,
  message and comment validation, the board feed and vote rules, comment
  nesting, envelope encryption framing, upload screening and filename
  normalisation, configuration parsing, TURN credentials, SFU replies, and
  what the realtime socket does with each frame it reads.
  Calls into outside crates (base64, chacha20poly1305, hmac/sha1, infer,
  chrono) sit behind small trusted wrappers whose contracts are stated
  next to them.
- `app/` is the service around the library: the axum router and
  middleware, the SQLite repositories, the attachment and avatar stores on
  disk, the WebSocket hub and the SFU HTTP client. It reads requests, asks
  the library what to do, and performs the I/O; the order in which a
  service method runs the library's checks is written there.
- `tests/` exercises the library on concrete values.
