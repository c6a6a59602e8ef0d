//! Decision logic of a reverse-proxy gateway in front of a document-store
//! backend: request classification and rewriting, the backend health state
//! machine with exponential backoff, the per-client message broker, request
//! metrics and the dispatch of sync-protocol messages.

pub mod backend;
pub mod broker;
pub mod config;
pub mod gateway;
pub mod health;
pub mod metrics;
pub mod models;
pub mod setup;
pub mod sync;
pub mod text;
pub mod utils;
