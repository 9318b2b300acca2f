//! A raster image filtering engine: pixel-level transforms (3x3 convolution,
//! order-statistic filters, 2x resampling, color remapping, salt-and-pepper
//! noise) over a dense RGBA8 bitmap, together with the pipeline state that
//! chains them.

pub mod color;
pub mod noise;
pub mod pipeline;
pub mod raster;
pub mod sort;
pub mod window;
pub mod zoom;

pub use raster::RasterImage;
pub use raster::Rgba;
