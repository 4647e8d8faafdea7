//! Repository transfer and storage for a code forge.
//!
//! Pushes bring content-addressed objects and ref updates; each push is
//! checked against size limits and object hashes, its objects are stored,
//! and its ref updates are applied as one compare-and-swap batch. Pulls
//! resolve refs and return every object reachable from them. Around that
//! core stand the forge's settings, domain types and the per-repository
//! write sections that serialize pushes.
pub mod auth;
pub mod config;
pub mod coordinator;
pub mod engine;
pub mod error;
pub mod jj;
pub mod laws;
pub mod loader;
pub mod models;
pub mod object;
pub mod object_store;
pub mod policy;
pub mod ref_store;
pub mod search;
pub mod server_config;
pub mod session;
pub mod storage;
pub mod transfer;
pub mod types;
pub mod vcs;
