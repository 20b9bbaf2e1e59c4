# haxball_replay_decoder

A decoder and validator for HaxBall replay recordings (`.hbr2`), written in Verus and
verified against its contracts.

A recording is a 12-byte header (`HBR2`, the format version, the total number of frames)
followed by one raw deflate stream that holds the goal markers, the room state at the start
and the stream of events. `decode` turns the bytes into a `ReplayData` and checks it under
the strict rules; `validate` reports every rule that a recording breaks.

## Layout

- `src/codec/` — the byte-level format: a bounds-checked reader (`reader.rs`), the CESU-8
  text decoder (`cesu8.rs`), raw deflate driven through `flate2` (`inflate.rs`), and one
  module per part of the format (stadium, room, events, the replay as a whole). Each parser
  is stated by a spec function over the input bytes and proved to compute it.
- `src/types/` — the data model and its mathematical views. Floating-point fields are kept
  as their IEEE-754 bit patterns; JSON documents of custom events are kept as their text.
- `src/validate/` — the validation rules, stated as spec functions from a replay to its list
  of issues.
- `src/laws.rs` — properties that relate the decoder and the validator.
- `app/` — ordinary Rust around the library: copies of the data types with serde's derives
  (floats as `f64`/`f32`, JSON as `serde_json::Value`) and the error type with
  `std::error::Error`, converted to and from the library's types.
- `tests/` — tests on concrete recordings built in the tests themselves.
