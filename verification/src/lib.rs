//! Pixel art to SVG: an image's opaque pixels are covered with rectangles of
//! one color each, and the rectangles are written out as SVG markup.
//!
//! - [`color`] and [`rectangle`] hold the data model.
//! - [`raster`] is the boundary to the `image` crate: the decoded image and
//!   the grid of pixels that stands for it in contracts.
//! - [`tiling`] states the rule of the greedy extraction and proves what
//!   follows from it; [`extract`] is the scan that carries it out.
//! - [`svg`] writes the document, and [`text`] the numbers in it.

pub mod color;
pub mod extract;
pub mod raster;
pub mod rectangle;
pub mod svg;
pub mod text;
pub mod tiling;

pub use color::Color;
pub use extract::ImageProcessor;
pub use rectangle::Rectangle;
pub use svg::{convert_image_to_svg, create_svg, ConversionOptions, ConversionResult};
