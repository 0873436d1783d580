//! What the library promises, stated over all inputs.

pub mod addresses;
pub mod commands;
pub mod configuration;
pub mod files;
pub mod forwards;
pub mod hosts;
pub mod identifiers;
pub mod places;
pub mod reading;
pub mod running;
pub mod texts;
pub mod tunnel_setup;
pub mod wire;
