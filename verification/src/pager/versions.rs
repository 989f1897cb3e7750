//! Versions of the on-page layout.
pub mod v1;
