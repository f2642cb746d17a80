//! Argus: an OpenID Connect identity provider for people and for agents.
//!
//! The library holds all that is decided: `routes` names the endpoints. What is read from the network
//! and from disk is handed to them as plain values, and they hand plain values back.

pub mod access_laws;
pub mod account_laws;
pub mod agent_laws;
pub mod agents;
pub mod audit_laws;
pub mod authorize;
pub mod config;
pub mod cookies;
pub mod crypto;
pub mod encoding;
pub mod github;
pub mod github_laws;
pub mod grants;
pub mod guarantees;
pub mod http;
pub mod json;
pub mod laws;
pub mod login;
pub mod oidc;
pub mod pages;
pub mod routes;
pub mod rows;
pub mod site_laws;
pub mod store;
pub mod store_laws;
pub mod tables;
pub mod text;
pub mod text_laws;
pub mod token_laws;
pub mod tokens;

pub use config::Config;
pub use http::AppState;
