//! Verified core of the OpenRouter usage widget: error values, update
//! selection and signature checks, dashboard assembly from OpenRouter data,
//! activity aggregation, credential fingerprints and the decisions that the
//! desktop shell carries out.
pub mod error;
pub mod text;
pub mod version;
pub mod update;
pub mod encoding;
pub mod credentials;
pub mod update_signature;
pub mod openrouter;
pub mod commands;
