//! Integer and text logic of a progressive path tracer: texture storage and
//! conversion, tile scheduling and progressive accumulation decisions, and
//! file-name helpers.

pub mod brdf;
pub mod error;
pub mod image_io;
pub mod import;
pub mod progress;
pub mod screen;
pub mod texture;
pub mod tile;

pub use brdf::{Black, BrdfType, Lambertian, MicrofacetBrdf, ZeroSampler};
pub use error::Error;
pub use image_io::{add_suffix, parse_sample};
pub use progress::{Average, Progress, TracingOutput};
pub use screen::fullscreen_indices;
pub use texture::{from_u16, to_texture, Filtering, PixelFormat, Sampler, Texture, WrapMode};
pub use tile::{TextureBlock, BLOCK_HEIGHT, BLOCK_WIDTH};
