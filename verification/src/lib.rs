//! Core of an embedded API gateway: wire-format negotiation, typed request
//! and response wrappers, and the table of requests that wait for an answer
//! from a frontend that cannot be called synchronously.

pub mod accept;
pub mod content_type;
pub mod extract;
pub mod server;
pub mod services;
pub mod status;
