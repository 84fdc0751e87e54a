//! Thinning (skeletonization) of binary raster images.
//!
//! An image is a rectangular grid of booleans, `true` for foreground. Thinning
//! erodes the boundary of the foreground, pass after pass, until a pass removes
//! nothing. Two engines are offered: [`default::imgthin`] decides each pixel
//! from its eight neighbours directly, [`ysc_whh::imgthin`] reads the decision
//! from two precomputed 16 x 16 tables and follows a broader rule.
//!
//! Contracts are stated over [`grid::Grid`], the mathematical model of an image.
//! [`text`] reads grids that are written as lines of `0` and `1`, and
//! [`picture`] draws an image as text.

pub mod bin_image;
pub mod common;
pub mod default;
pub mod error;
pub mod grid;
pub mod picture;
pub mod text;
pub mod ysc_whh;

pub use bin_image::BinImage;
pub use bin_image::BinImageIntoIter;
pub use common::calculate_ap_and_bp;
pub use common::SubIter;
pub use default::imgthin;
pub use error::InvalidInput;
