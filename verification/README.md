# torrent

A small BitTorrent client library, verified with Verus.

- `src/metainfo.rs` — the metainfo structures; total size, piece and block
  lengths, the announce URL, its protocol, the tracker address, the info hash.
- `src/bencode.rs` — the bencode form of the `info` dictionary.
- `src/rounding.rs` — `(q as f32).floor() as u32` in integer arithmetic, as
  the piece arithmetic uses it.
- `src/wire.rs` — big-endian fields (through `byteorder`).
- `src/peer.rs` — peer wire messages, their parse, and the action taken on a
  message from a peer.
- `src/tracker.rs` — UDP tracker requests and replies, and the step taken on
  a tracker reply.
- `src/ipv4.rs` — dotted-decimal text of an address.
- `app/` — file, UDP and TCP I/O around the library, and the serde forms of
  the metainfo structures.
