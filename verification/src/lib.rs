//! Hozon: a library that turns a tree of page images into packaged ebook
//! volumes.  The core pipeline is verified: path classification, numeric-aware
//! sorting, volume structuring, cover-color analysis and generation planning
//! all carry contracts, while directory listing and container writing stay in
//! the thin unverified shell around the library.

pub mod collector;
pub mod cover;
pub mod error;
pub mod generation;
pub mod hozon;
pub mod path_utils;
pub mod pattern;
pub mod sortkey;
pub mod sorting;
pub mod strutil;
pub mod types;
