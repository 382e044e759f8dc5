//! The identifier schemes, one module for each version.

pub mod v0;
