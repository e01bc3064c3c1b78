//! A procedural watermark engine: mask descriptions, tiling coordinates, the
//! vector document that describes a mask, and its rasterisation.

pub mod digits;
pub mod color;
pub mod coords;
pub mod xml;
pub mod mask;
pub mod svg;
pub mod render;
pub mod lang;
