//! Verified core of the Art3m1s visual novel runtime.
//!
//! The crate holds the rules of the runtime: project configuration, host event
//! transport, resource lookup, script control state, input routing, media
//! commands, save paths, text state and the versioned host interface. Each
//! public function states in its contract what it returns or changes.
pub mod audio;
pub mod codec;
pub mod ffi;
pub mod ffi_callbacks;
pub mod host;
pub mod host_media;
pub mod json;
pub mod name_map;
pub mod paths;
pub mod profiler;
pub mod project;
pub mod render_pipeline;
pub mod runtime;
pub mod save;
pub mod strs;
pub mod text;
pub mod text_order;
