//! Discrete core of a small piano-roll synthesizer: note naming and piano
//! layout, the envelope stage machine, voice allocation, the playback
//! schedule, the piano-roll editor, transport state and option selection.
//! Everything that computes on samples or screen coordinates (floating point)
//! lives with the front end; this crate decides.

pub mod config;
pub mod editor;
pub mod envelope;
pub mod layout;
pub mod menu;
pub mod note;
pub mod palette;
pub mod pitch;
pub mod roll;
pub mod schedule;
pub mod theme;
pub mod transport;
pub mod voice;
pub mod waveform;
