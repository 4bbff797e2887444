# zflow

zflow shares one keyboard, pointer and touchpad between paired computers. The
library in `src/` holds its rules as verified Rust: each function carries a
contract that Verus proves, and the promises that hold of several functions
together stand as public proof functions beside them.

## Layout

- `src/input.rs`, `src/capture.rs`, `src/codes.rs`: keys, buttons, motion, touch
  contacts and captured frames.
- `src/linux/`: evdev mapping, multitouch decoding, touchpad replay, capture
  sets and grab transactions, source ownership, seats and virtual devices.
- `src/runtime/`: the runtime's state, chords, device selection and readiness.
- `src/session/`: negotiation, validation, merging, pacing and the queues of an
  input session.
- `src/macos/`: captured Mac events, the handoff to another desktop and the
  source worker's decisions.
- `src/gui/`: the layout of computers and its editor, settings, pairing,
  sharing and what the window allows.
- `src/identity.rs`, `src/pairing.rs`, `src/peer_view.rs`: identities, pairing
  codes and what a paired computer is trusted with.
- `src/metrics.rs`, `src/net.rs`, `src/address_text.rs`, `src/text.rs`,
  `src/lists.rs`, `src/paths.rs`, `src/scan.rs`, `src/ordered.rs`:
  measurements, addresses, paths and texts.
- `tests/`: concrete values, edge cases and errors.
- `app/`: the program around the library: the command line, files, devices,
  buses, threads, the window, and what is computed in floating point.

## Times and numbers

Times are whole numbers: nanoseconds in the runtime and for devices,
microseconds in a session, milliseconds on a Mac source. Shares of an edge are
whole offsets with their lengths. The configured share of arrivals is kept bit by
bit beside its whole hundredths. The program converts at its edge.

## What is trusted

The library calls evdev for key names, getrandom for random bytes, sha2 for
digests and rcgen for key pairs. Each call stands in one small function whose
contract says what is taken from the crate; everything else is proved.
