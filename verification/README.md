# t10_dif_storage

T10-DIF protection information for storage blocks, verified with Verus.

- `src/crc16.rs` — CRC-16/T10-DIF stated bit by bit, the call into the `crc`
  crate that computes it, and its properties (residue 0, any change confined
  to two adjacent bytes changes the checksum).
- `src/native.rs` — integers in the machine's byte order
  (`vstd::endian::endianness`), through `to_ne_bytes` / `from_ne_bytes`.
- `src/dif.rs` — the 8-byte `T10Dif` record: `compute`, `verify` and its
  in-memory byte image.
- `src/buffer.rs` — `DmaBuffer`, a byte buffer with a checked alignment, and
  the records and data block laid out in it.
- `src/device.rs` — the sector size chosen from a device query, and the
  sorting and counting of io_uring completions.
- `src/bench.rs` — the arithmetic of the integrity bench.
- `app/` — the program around the library: direct I/O with `libc` and
  `io-uring`, the command line (`clap`), the progress bar (`indicatif`) and a
  memory-mapped metadata file (`memmap2`, run as `t10_dif_storage
  metadata-file`).
