//! Text on message layers.
pub mod atlas;
pub mod font;
pub mod layers;
pub mod layout;
pub mod render;
pub mod state;
pub mod stub;
