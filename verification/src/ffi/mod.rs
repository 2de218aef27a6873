//! What the host interface decides.
pub mod abi;
pub mod debug;
pub mod font_override;
pub mod krkr_api;
pub mod log_filter;
pub mod requests;
pub mod rfvp_api;
pub mod siglus_api;
pub mod text_inject;
