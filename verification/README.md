# audiostego

FFT-domain audio steganography: a message is protected (CRC or
Reed-Solomon), optionally encrypted (ChaCha20-Poly1305), framed behind a
self-describing capsule header, and spread over the STFT frames of a song
by a key-seeded allocation.

- `src/` is the verified library: the command vocabulary and its codes,
  parameter resolution, the payload (bit packing, error protection,
  encryption, capsule header, bit allocation), frame layout and capacity,
  channel planning and reassembly, extraction settings (command line,
  sidecar, capsule header), and the framing side of the strategies. Its
  calls into outside crates sit in `src/outside.rs`.
- `app/` is the `audiostego` command: audio decoding and encoding, the
  STFT and the sample arithmetic of the strategies, and the file work.
- `tests/` exercises the library.
