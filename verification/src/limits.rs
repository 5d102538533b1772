//! The bounds and units shared by the detector and by the commands that tune it.

use vstd::prelude::*;

verus! {

/// Smallest similarity threshold a command can set, in hundredths.
pub const MIN_SIMILARITY_THRESHOLD: u32 = 80;

/// Largest similarity threshold a command can set, in hundredths.
pub const MAX_SIMILARITY_THRESHOLD: u32 = 99;

/// The similarity threshold a fresh process starts with, in hundredths.
pub const DEFAULT_SIMILARITY_THRESHOLD: u32 = 95;

/// Smallest side length of a mosaic.
pub const MIN_MOSAIC_SIZE: u32 = 2;

/// Largest side length of a mosaic.
pub const MAX_MOSAIC_SIZE: u32 = 12;

/// The mosaic side length a fresh process starts with.
pub const DEFAULT_MOSAIC_SIZE: u32 = 9;

/// How many links the link cache holds.
pub const MAX_RECENT_LINKS: usize = 50;

/// How many mosaics the image cache holds.
pub const MAX_RECENT_IMAGES: usize = 50;

/// The score of two identical mosaics: scores count millionths.
pub const SCORE_ONE: u32 = 1_000_000;

/// Score units per hundredth, the unit of thresholds.
pub const SCORE_PER_HUNDREDTH: u32 = 10_000;

} // verus!
