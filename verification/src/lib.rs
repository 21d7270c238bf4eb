//! Verified core of the ETIB game engine and of its asset manager.
pub mod bindgroup;
pub mod camera;
pub mod config;
pub mod culling;
pub mod dynamic;
pub mod handlefile;
pub mod hdr;
pub mod input;
pub mod json;
pub mod model_file;
pub mod raytracing;
pub mod scene;
pub mod sounds;
pub mod surface;
pub mod text;
pub mod time;
