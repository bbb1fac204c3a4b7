//! OpenRouter data: the API's response types, request outcomes, and the
//! dashboards built from them for standard and management keys.
pub mod client;
pub mod management;
pub mod models;
pub mod standard;
