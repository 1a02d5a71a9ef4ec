//! Reconciles delimited movie, director, person and cast sources into one
//! denormalized row per movie, ready to be written to a wide-column store.

pub mod cast;
pub mod index;
pub mod links;
pub mod loader;
pub mod movie;
pub mod project;
pub mod records;
pub mod resolve;
pub mod store;
pub mod text;
