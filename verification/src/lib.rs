//! Turns a Standard MIDI File into a timed stream of key presses for an
//! instrument with a fixed, sparse set of playable pitches.
//!
//! The crate holds the decisions of such a player: reading the tracks of a
//! file, merging them into one timeline under the file's tempo map, scoring
//! and searching transpositions, and stepping a drift-corrected playback.
//! Clocks, sleeping, key injection and windows belong to the caller.

pub mod control;
pub mod convert;
pub mod coverage;
pub mod event;
pub mod files;
pub mod keys;
pub mod maps;
pub mod merge;
pub mod midi;
pub mod order;
pub mod parse;
pub mod schedule;
pub mod settings;
pub mod smf;
pub mod timing;
pub mod track;
pub mod tune;
