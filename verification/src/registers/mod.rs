//! Register records of the bus and the values they carry.
pub mod bank;
pub mod bank_laws;
pub mod conversion_laws;
pub mod decoded;
pub mod enums;
pub mod ids;
pub mod layout_laws;
pub mod payloads;
pub mod wire;
