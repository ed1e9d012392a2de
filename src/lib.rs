//! Recovers the hidden messages drawn as grids of "eye" icons: every icon is a
//! trigram of three eyes, each gazing in one of five directions.
//!
//! * [`direction`]: directions, trigrams and their base-5 codes;
//! * [`catalog`]: the triangle catalog that folds the 125 codes into
//!   congruence classes;
//! * [`raster`]: the channel-0 raster, the template scanner and the gaze
//!   classifier;
//! * [`grid`]: placement of eyes into the trigram grid;
//! * [`decoder`]: the whole pipeline on one image;
//! * [`error`]: what can go wrong.

pub mod catalog;
pub mod decoder;
pub mod direction;
pub mod error;
pub mod grid;
pub mod raster;
