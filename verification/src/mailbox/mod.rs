//! Register values as the clients of the mailbox see them.
pub mod codec;
pub mod convert;
pub mod convert_laws;
pub mod dto;
pub mod dto_laws;
pub mod error;
pub mod fault_laws;
pub mod kind;
pub mod message;
pub mod payload_laws;
pub mod policy;
pub mod read_back;
pub mod schema;
pub mod snapshot;
pub mod value;
pub mod word_laws;
pub mod words;
