//! Values stored in pages.
pub mod var;
