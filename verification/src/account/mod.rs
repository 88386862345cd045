//! API accounts: where their secrets live and how account input is checked.

pub mod keyring;
pub mod service;
