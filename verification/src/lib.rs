//! Duplicate-content detection for a chat: perceptual fingerprints of images,
//! a similarity score between fingerprints, bounded caches of what was posted
//! recently, and the chat commands that tune the detector while it runs.
//!
//! Scores and thresholds are fixed-point integers, so every decision the
//! detector takes is exact and proved against its contract.

pub mod cache;
pub mod commands;
pub mod images;
pub mod limits;
pub mod links;
pub mod mosaic;
pub mod raster;
pub mod root;
pub mod similarity;
pub mod text;

