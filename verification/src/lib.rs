//! Renders plain text as a bitmap in an invented geometric writing system.
//!
//! Each character is mapped through a fixed glyph table to a symbolic code,
//! a pair of small integers. Each code is drawn inside a fixed-size square
//! tile: the first integer selects the stroke pattern of the tile's upper
//! half, the second that of its lower half. A pure per-pixel rule decides
//! which pixels of a tile belong to a stroke; a compositor lays the tiles
//! out in a grid and fills an RGB raster buffer. Saving the buffer to disk
//! is left to the caller.

pub mod compositor;
pub mod encoder;
pub mod stroke;
pub mod table;

pub use compositor::make_image;
pub use compositor::RasterBuffer;
pub use encoder::encrypt_text;
pub use encoder::GlyphError;
pub use stroke::check_stroke;
pub use stroke::Config;
