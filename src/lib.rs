pub mod color;
pub mod error;
pub mod format;
pub mod geometry;
pub mod paths;
pub mod pdf;
pub mod pipeline;
pub mod raster;
pub mod template;

pub use crate::error::ConvertError;
pub use crate::format::Format;
pub use crate::geometry::{Resize, Scale};
pub use crate::pipeline::{DataSource, Image};
pub use crate::raster::{PixelLayout, RasterImage};
