//! Account management for Codex and Pi Agent OAuth credentials.
pub mod text;
pub mod json;
pub mod error;
pub mod model;
pub mod number;
pub mod quota;
pub mod commit;
pub mod protocol;
pub mod runtime;
pub mod repository;
pub mod service;
pub mod quota_refresh;
pub mod reconcile;
pub mod rotation;
pub mod switch;
pub mod oauth;
pub mod secure_store;
pub mod request_log;
pub mod widget;
pub mod config;
