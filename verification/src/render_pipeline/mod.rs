//! From the logical scene to what backends draw.
pub mod draw;
pub mod pipeline;
pub mod post_process;
pub mod transition;
