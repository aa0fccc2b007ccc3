//! A dotfile manager: configuration files are moved into a repository of
//! named modules and replaced by symbolic links that point into it.
//!
//! This library holds the decisions: how paths map to repository locations,
//! which module owns which path, and which filesystem steps each operation
//! takes. Running those steps against a real filesystem is left to callers.
pub mod config;
pub mod entry;
pub mod error;
pub mod laws;
pub mod module;
pub mod ops;
pub mod path;
pub mod profile;
pub mod scan;
