# Bluetooth audio core

The core of a Bluetooth headphone manager for a small device, written in Rust and verified with
Verus: device discovery, pairing and connecting, AVDTP and AVRCP signalling, RTP packets of SBC
frames, an endpoint that takes MP3 from a client, and the two pages of its user interface.

- `src/` is the library. Every function states in its contract what it returns and changes, and
  Verus proves it. Protocol state machines are described as transitions of a view (`SourceView`,
  `ControllerView`, `InputView`, ...); the files and functions named `law` prove what holds across
  transitions.
- `tests/` runs the library on concrete packets and values.
- `app/` is the unverified part around it: floating-point samples, sharing between threads, the
  page builder and the entry points of the module.

Three outside functions are trusted: `nanomp3::Decoder::new` and `nanomp3::Decoder::decode`, whose
answer is taken to depend on its inputs alone and, some bounds apart, is not described, nor are the
samples that it leaves, and `core::str::from_utf8`.
