//! Bundles files into a ZIP archive, naming each entry by its file's base name.

pub mod archive;
pub mod cli;
pub mod error;
pub mod paths;
