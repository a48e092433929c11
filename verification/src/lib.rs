//! Verified core of AutoThesis: request validation, configuration parsing,
//! run cancellation bookkeeping, URL safety checks, text helpers and the
//! small pieces of formatting that the web layer relies on.

pub mod cancellation;
pub mod config;
pub mod db;
pub mod error;
pub mod fetch;
pub mod markdown;
pub mod models;
pub mod numbers;
pub mod price;
pub mod prompts;
pub mod providers;
pub mod routes;
pub mod text;
pub mod time;
