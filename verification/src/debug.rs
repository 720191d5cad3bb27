//! Diagnostics that the frame loop may show over the picture.

pub mod debug_logger;
