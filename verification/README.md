# mai

An event loop for framed protocols over non-blocking byte streams. A user
picks a frame type, a `Codec` that turns frames into bytes and back, and a
`Handler` that reacts to connections, frames, timeouts, errors and
disconnects; the engine manages buffers, streams and tokens.

## Layout

- `src/` is the verified library (Verus):
  - `buffer`: fixed-capacity byte buffers (`extend`, `restack`, ...);
  - `codec`: the `Codec` trait and the loops that decode a buffer into
    frames and encode an outbox into a buffer; a codec that describes its
    own behaviour (`obeys_codec_spec`, `encoding`, `decoding`) gets exact
    contracts for both loops (`decode_run`, `encode_run`);
  - `token`, `stream_manager`: token allocation and the table of sessions;
  - `stream_state`: the life of a stream and the decisions taken on each
    readiness event (when to tell the handler a stream is ready, what is
    left to write, which pooled holders to give back);
  - `transfer`: the steps of the non-blocking read and write loops;
  - `settings`, `timeout`, `stream_id`, `stream_session`, `error`.
- `app/` is the engine around it: the `mio` event loop, `lifeguard` pools,
  the `Protocol`, `Handler` and `EventedByteStream` traits, and the
  `ProtocolEngine` that runs the loop and calls into the library for every
  decision.
- `tests/` exercises the library.
