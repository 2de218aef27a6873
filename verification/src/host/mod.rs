//! The boundary to the host: event transport, resource lookup and log routing.
pub mod events;
pub mod files;
