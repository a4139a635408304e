//! The data of the library.
pub mod codex;
pub mod codex_local_access;
