//! Naming rules for the asset files and project folders on disk.
pub mod file;
pub mod folder;
pub mod path;
