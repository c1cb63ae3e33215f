//! A phonological data model for constructed-language design: a three-axis
//! categorical classification of phonemes, wildcard-capable feature selectors,
//! bidirectional feature-tuple/identity alphabets, a phoneme store, a dialect
//! tree, and sound-change authoring.

pub mod alphabet;
pub mod category;
pub mod diacritics;
pub mod dialect;
pub mod language;
pub mod phoneme;
pub mod quality;
pub mod sound_change;
pub mod state;
pub mod store;
pub mod text;
pub mod ui;
