//! Verified core of the music analysis viewer: chord and key logic, section
//! labels, backend configuration and the segment label override history.

pub mod stems;
pub mod text;
pub mod chords;
pub mod keys;
pub mod sections;
pub mod config;
pub mod overrides;
pub mod tracks;
pub mod clock;
pub mod visual;
pub mod listing;
pub mod section_card;
pub mod song_state;
pub mod pattern;
