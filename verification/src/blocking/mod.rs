//! The login of the blocking flavour of the client.

pub mod login;
