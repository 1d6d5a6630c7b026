//! Core logic of a small download manager that drives an external
//! command-line video downloader: building the downloader's argument
//! list, parsing its line-oriented progress output into structured
//! events, and folding a subprocess's whole event stream into exactly
//! one terminal outcome per job.

pub mod events;
pub mod launcher;
pub mod progress;
pub mod scan;
pub mod stream;
