//! Normalized battery / BMS / power-station model and the pure protocol
//! logic behind it: frame builders and decoders, register maps, the text
//! console parser, capability gating, credential persistence and device
//! resolution.

pub mod auth;
pub mod capabilities;
pub mod cli;
pub mod commands;
pub mod credentials;
pub mod discovery;
pub mod link;
pub mod module;
pub mod error;
pub mod identity;
pub mod text;
pub mod pylontech_can;
pub mod pylontech_cli;
pub mod seplos;
pub mod sok;
pub mod status;
pub mod types;

pub use error::Error;
