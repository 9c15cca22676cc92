//! Verified core of a Bitcoin mining controller: configuration rules, error
//! recovery policy, work and result queues, device id allocation, ASIC chain
//! framing, proof-of-work target checks and text formatting helpers.

pub mod error;
pub mod logging;
pub mod device;
pub mod clock;
pub mod ids;
pub mod mining;
pub mod text;
pub mod config;
pub mod api;
pub mod config_validator;
pub mod json;
pub mod stratum_probe;
pub mod monitoring;
pub mod c_api;
pub mod core_loader;
pub mod core_info;

pub use core_info::get_core_info;
