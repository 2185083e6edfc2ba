//! Music theory as verified value types: pitches, intervals, key signatures,
//! chords and scales, with the note sequences they generate.
pub mod chord;
pub mod interval;
pub mod key_signature;
pub mod laws;
pub mod names;
pub mod note;
pub mod pitch_class;
pub mod scale;
pub mod text;
pub mod wasm;
