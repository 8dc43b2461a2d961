# hazel

The verified core of a voice and screen-sharing chat client, written in Verus.

`src/` holds the logic, each function with a contract that Verus proves:

- `connection`: reconnect back-off and subscriber bookkeeping of the RPC
  client.
- `frame`: the RPC wire format (key, optional request id, length-prefixed
  body), decoding, encoding and a receive buffer.
- `auth`: session keys signed with HMAC-SHA256, and their expiry.
- `models`: typed ids and the messages of the RPC endpoints.
- `annex`: splitting an H.264 Annex-B stream into NAL units.
- `jitter`, `clients`: which audio packets are kept and played, per speaker.
- `reassembly`: video frames rebuilt from their chunks, with Reed-Solomon
  recovery of missing ones.
- `sender`: when captured audio is sent and when a speech section ends.
- `notifier`, `channel`, `devices`, `voice`, `audio`, `pixels`: the smaller
  state machines and buffers around them.

Calls into `hmac`/`sha2`, `chrono`, `arrayvec`, `bytes`,
`reed-solomon-simd` and std's clock go through a few trusted wrappers whose
contracts state what those crates document.

`app/` is the runtime around the library: locks, futures, TCP tasks,
MessagePack and the floating-point audio timing. `tests/` runs the library.
