//! System calls whose decisions live in this crate.
pub mod sync;
