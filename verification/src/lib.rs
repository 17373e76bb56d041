//! Chord-based keyboard layouts and their ergonomic scoring.
//!
//! The chord model fixes ten finger positions and enumerates the legal chord
//! spaces; layouts map characters to chords, either from fixed dual-layer
//! tables or by a random bijection onto a chord space; streaming metrics
//! rate the chord sequences a layout produces.

pub mod asetniop;
pub mod charmap;
pub mod charset;
pub mod chord_space;
pub mod hands;
pub mod keyboard;
pub mod metrics;
pub mod tenboard;
