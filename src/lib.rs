//! Core of a directory-listing tool: entry model, ordering, colour
//! classification and human-readable size formatting.

pub mod args;
pub mod colors;
pub mod entry;
pub mod flags;
pub mod render;
pub mod size;
