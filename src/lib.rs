//! Pairing low-resolution thumbnails with their full-size originals by
//! perceptual-hash distance.

pub mod bounds;
pub mod cache;
pub mod hash;
pub mod hashing;
pub mod matcher;
