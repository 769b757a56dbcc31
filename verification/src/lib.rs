//! Decisions and text handling behind a batch converter of photos to AVIF:
//! reading Lightroom XMP sidecars, recognising image formats, tracking the
//! progress of a batch and planning what happens to each file.

pub mod text;
pub mod xmp;
pub mod paths;
pub mod format;
pub mod progress;
pub mod job;
pub mod trash;
pub mod listing;
pub mod display;
pub mod standard;
