//! rsfetch: a neofetch-style system information tool.
//!
//! The library is split into layers, each returning plain data to the next:
//!
//! - [`info`] holds raw system data (bytes as `u64`, never strings).
//! - [`format`] turns that raw data into human-readable display rows and lines.
//! - [`logo`] and [`render`] pick the ASCII logo and lay it out beside the rows.
//! - [`config`], [`cli`], [`field`] and [`theme`] decide what is shown and how.
pub mod cli;
pub mod config;
pub mod field;
pub mod format;
pub mod info;
pub mod logo;
pub mod render;
pub mod text;
pub mod theme;
