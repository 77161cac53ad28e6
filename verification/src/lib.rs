//! Nodes that work on raster images, with their contracts.
//!
//! An [`image::Image`] is a grid of pixels; a [`frame::ImageFrame`] places one in the plane.
//! Most nodes take frames and give a frame; some make one from an image or a place, or collect
//! the bounding box of several things. What a node does to each pixel is stated in its
//! `ensures`, in terms of the image before and after and, where the place of an image matters,
//! of the plane geometry named in [`vector`]. What holds of several nodes together, or of one
//! node run twice, is stated in public proof functions beside them.
pub mod bbox;
pub mod blend;
pub mod channel;
pub mod downres;
pub mod empty;
pub mod extend;
pub mod fingerprint;
pub mod frame;
pub mod image;
pub mod imaginate;
pub mod map;
pub mod mask;
pub mod merge;
pub mod pixel;
pub mod vector;
