//! The glyph grid and everything that writes into it.

pub mod depth_order;
pub mod object;
pub mod point;
pub mod rasterizer;
pub mod render_buffer;
pub mod screen_buffer;
pub mod stroke;
