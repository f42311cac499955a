# orbshred

Records which source delivers which Solana shred first, and by how much.

- `src/` is the library, verified with Verus: the registry of arrivals, the socket
  filter and its interpreter, frame parsing and routing, the conversion of kernel
  timestamps, and the decisions of the UDP, capture and Jito sources.
- `app/` is the running side: sockets, threads and gRPC connections, which hand what
  they receive to the library and do what it decides.
- `tests/` runs the library on concrete values.

What is believed without proof of `dashmap`, `chrono`, `serde_json`, `bs58`,
`ed25519-dalek` and the clocks of `std` stands in the wrappers marked
`external_body`, in `store.rs`, `clock.rs`, `utc.rs`, `sources/kernel_ts.rs` and
`sources/jito.rs`.
