//! How the quota of an account is read, kept and repaired.
pub mod apply;
pub mod direct;
pub mod event_laws;
pub mod events;
pub mod identity;
pub mod identity_laws;
pub mod laws;
pub mod log_laws;
pub mod logs;
pub mod message_laws;
pub mod messages;
pub mod observation_laws;
pub mod order_laws;
pub mod preference;
pub mod provider;
pub mod provider_laws;
pub mod record_laws;
pub mod refresh;
pub mod refresh_laws;
pub mod refusal_laws;
pub mod repair;
pub mod scan;
pub mod scan_laws;
pub mod session_laws;
pub mod sessions;
pub mod snapshot;
pub mod usage;
pub mod window_laws;
