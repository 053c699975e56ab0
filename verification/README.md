# eventador

A pub/sub event bus over a ring buffer, after the LMAX disruptor, together with
the framing and connection bookkeeping of its network channels. The library in
`src/` is written in Verus; each public function carries a contract that Verus
proves.

## Layout

- `src/sequence.rs` — sequence numbers and groups of them (`Sequence`,
  `SequenceGroup`).
- `src/sequencer.rs` — hands out sequence numbers; under
  `WaitStrategy::AllSubscribers` it never lets a publisher overwrite an event a
  subscriber has not read.
- `src/event.rs` — the ring's slots (`EventEnvelope`).
- `src/ring_buffer.rs` — the ring: publishing, subscribing and reading in order,
  with the type tags that keep subscribers to their own events.
- `src/publisher.rs` — buffering publishers that flush to the ring.
- `src/stitch.rs` — network messages (`StitchMessage`), their MessagePack
  framing and the decoder that cuts a byte stream into messages.
- `src/channel.rs` — in-process channels of a given bound.
- `src/connection.rs` — the decisions of a connection's tasks: readiness, the
  accept loop, the poller's events.
- `src/handshake.rs` — handshake messages.
- `src/laws.rs` — what holds across operations: a published event reads back,
  no unread event is overwritten under `AllSubscribers`, subscribers read
  forward, encoded messages written one after another are read back in order,
  and a stream decodes the same in pieces as at once whenever the messages cut
  from the first piece decode the same whatever follows them (which
  `StreamDecoder::feed` ensures of the bytes it cuts).
- `app/` — the thread-safe bus (`Eventador`, typed subscribers, `Sink` and
  `Stream` handles), the TCP and TLS channels, and an echo program.
- `tests/` — tests of the library.

The library is sequential and takes no locks: one owner mutates the ring at a
time. `app/` shares it between threads and tasks behind one `Mutex` and a
condition variable, waits where the library answers `Full`,
`Pending` or `Wait`, and turns typed values into tags and shared payloads.
