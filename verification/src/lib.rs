pub mod clock;
pub mod config;
pub mod error;
pub mod json;
pub mod listing;
pub mod laws;
pub mod plan;
pub mod region;
pub mod reconcile;
pub mod registry;
pub mod request;
pub mod wire;
