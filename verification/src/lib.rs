//! Decoder for the binary table structure exposed by a keyboard-layout
//! module: the raw, interlinked tables describing how physical keys map to
//! virtual keys, modifier chords, typed characters and dead-key compositions
//! are walked over a read-only byte buffer and turned into an owned,
//! normalized domain model.

pub mod assoc;
pub mod decode;
pub mod errors;
pub mod laws;
pub mod model;
pub mod modifiers;
pub mod naming;
pub mod render;
pub mod scan_codes;
pub mod tables;
pub mod virtual_keys;
