//! Client logic for a JSON web service that is reached with HTTP Basic
//! authentication: which headers a client carries, which target it asks for,
//! and what it makes of the answer.

pub mod credentials;
pub mod error;
pub mod header;
pub mod payload;
pub mod service;
