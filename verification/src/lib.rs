//! A software 3D pipeline that draws animated meshes as a grid of coloured
//! glyphs.
//!
//! This crate is the exact part of the pipeline, free of rounding:
//!
//! - `math`: faces and meshes as ordered collections that transforms map
//!   corner by corner, and the signed areas that decide which cells a
//!   triangle covers;
//! - `rendering`: the glyph grid, the rasterizer with its top-left fill
//!   rule, painter's ordering by a depth key, and the per-object command
//!   queue that says on each frame how far every command has come;
//! - `interface`: the command line editor, the form of a typed command and
//!   of a line of a mesh text;
//! - `debug`: the message table of the diagnostic overlay.
//!
//! What is computed in floating point (orientation, projection, shading)
//! is left to the caller, who hands this crate corners on the grid, depth
//! keys and strokes, and gets back exact fractions of time.

pub mod debug;
pub mod interface;
pub mod math;
pub mod rendering;
