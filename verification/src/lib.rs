//! A small user directory behind a command boundary: validated, uniquely keyed
//! records and the commands a desktop front end calls to create them.

pub mod commands;
pub mod directory;
pub mod error;
pub mod laws;
pub mod record;
pub mod store;
pub mod validation;
