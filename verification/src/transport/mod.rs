//! Data and errors of the collaboration transport.
pub mod discovery;
pub mod node;
pub mod presence;
pub mod presence_types;
pub mod session;
