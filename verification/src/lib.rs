//! Verified core of the dubbing studio: interface texts, text utilities,
//! take naming, take carry-over after a re-split, the frame-level speech
//! search, phrase navigation and the placement of takes on the master track.

pub mod audio;
pub mod i18n;
pub mod models;
pub mod project;
pub mod session;
pub mod slicer;
pub mod util;
pub mod video;
