//! The daemon between the clients and the engine.
pub mod address;
pub mod address_laws;
pub mod client;
pub mod client_laws;
pub mod config;
pub mod config_laws;
pub mod feeder;
pub mod filter;
pub mod hub;
pub mod pending;
pub mod pending_laws;
pub mod replies;
pub mod watchdog;
