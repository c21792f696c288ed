//! Tablet side of the control-box session.
pub mod event;
pub mod read_laws;
pub mod runner;
pub mod session;
pub mod session_laws;
pub mod step_laws;
pub mod wire;
