//! What a running game decides.
pub mod actions;
pub mod backlog;
pub mod control;
pub mod dxt5;
pub mod emote;
pub mod events;
pub mod finish;
pub mod handlers;
pub mod hiding;
pub mod input;
pub mod key_set;
pub mod keymap;
pub mod media;
pub mod modes;
pub mod project;
pub mod read_lines;
pub mod render;
pub mod save_io;
pub mod save_plan;
pub mod telemetry;
pub mod text;
pub mod translation;
pub mod uploads;
pub mod wait;
