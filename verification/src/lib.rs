//! Forward-only schema versioning for an embedded relational store.

pub mod catalog;
pub mod engine;
pub mod error;
pub mod laws;
pub mod migration;
pub mod model;
pub mod schema;
