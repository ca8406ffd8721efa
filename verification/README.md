# not_rsync

File synchronisation with the rsync algorithm: the client asks the server for
the block signature of its copy of a file, computes a delta of the source
against it, and the server patches its copy with that delta.

- `src/` is the library, verified with Verus: length-prefixed message
  framing (`lib.rs`), the wire messages (`not_rsync_pb`), the rsync steps over
  `fast_rsync` (`rsync`), the server's request handling over an in-memory view
  of its files (`servicer`, `file_store`), the client's session and location
  parsing (`sync`), the server's process-id announcement (`remote`), and the
  earlier text protocol (`client::sync`).
- `app/` holds the programs: protobuf encoding, the channel and SSH/TCP
  transports, file I/O, and the loops that drive the library's decisions.
- `tests/` exercises the library on concrete values.
