# s3lite

A content-addressed object store. An object is named by the lower-case hex of
the SHA-256 of its bytes (its CID), stored once at `objects/aa/bb/<cid>` under
the data directory however often it is uploaded, and counted in running
statistics (uploaded bytes, stored bytes, objects, uploads, downloads).
Human-readable names can be linked to CIDs.

Layout:

- `src/` — the verified library (Verus):
  - `content.rs` — CIDs: SHA-256 (through `sha2`) and lower-case hex.
  - `storage.rs` — the on-disk layout: path joining, the partition of a CID
    into directory levels, what finalizing an upload comes to.
  - `records.rs` — object records and statistics, their JSON form (through
    `serde_json`), and the statistics' accounting laws.
  - `metadata.rs` — the metadata store on three `sled` trees: statistics,
    object records with reference counts, name links.
  - `api.rs` — what each HTTP endpoint decides and answers.
  - `client.rs` — the addresses the command-line client talks to.
- `tests/` — tests of the library on concrete values.
- `app/` — the program: the command line (`clap`), the HTTP server (`axum`,
  `tokio`), file and network I/O, and the savings percentage (floating point).
