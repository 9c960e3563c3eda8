//! Core logic of the squad ledger server: Google sign-in token checks,
//! certificate caching, configuration and GraphQL input handling.

pub mod auth;
pub mod db;
pub mod googlesignin;
pub mod graphql;
pub mod keyorder;
pub mod settings;
pub mod text;
pub mod uid;
