//! What is left of the quotas of Codex accounts: how it is read, kept, repaired and refreshed.
pub mod clock;
pub mod double;
pub mod gateway;
pub mod json;
pub mod json_laws;
pub mod models;
pub mod number_laws;
pub mod numbers;
pub mod quota;
pub mod text;
pub mod text_map;
pub mod urls;
pub mod view_laws;
