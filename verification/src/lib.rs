//! Core logic of a directory/archive image browser: classifying filesystem
//! paths, scanning a directory or a zip archive into sorted listings, and
//! navigating the resulting image list (including two-page "spread" view).
//!
//! All filesystem and archive I/O is done by the embedding program, which
//! hands this library plain values (entry names, file bytes, metadata) and
//! receives plain values back.
pub mod archive;
pub mod classify;
pub mod i18n;
pub mod input;
pub mod natural;
pub mod nav;
pub mod orient;
pub mod paths;
pub mod scan;
pub mod settings;
pub mod sort;
pub mod strs;
pub mod utils;
