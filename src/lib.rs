//! Data fusion and derivation for a periodic e-ink dashboard: tide-window
//! selection, radar reclassification, text layout and the assembly of
//! independently fallible sources into one snapshot.

pub mod text;
pub mod tides;
pub mod radar;
pub mod layout;
pub mod moon;
pub mod fusion;
pub mod pattern;
pub mod template;
pub mod sources;
pub mod screen;
