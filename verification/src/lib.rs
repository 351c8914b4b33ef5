//! Profiles, connectivity probes and launch rules of the claudex command line.
pub mod config;
pub mod connectivity;
pub mod error;
pub mod interactive;
pub mod launcher;
pub mod outside;
pub mod path;
pub mod presets;
pub mod profile;
pub mod proxy;
pub mod testing;
pub mod text;
pub mod text_map;
