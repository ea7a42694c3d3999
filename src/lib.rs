//! Resolves the icon of a desktop launcher entry to an image file and turns
//! that image into a square, centred, alpha-padded thumbnail.
pub mod text;
pub mod resolve;
pub mod raster;
pub mod pipeline;
