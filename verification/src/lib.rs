//! Event notification and delivery: an ordered event log with cursor queries,
//! live subscriptions, webhook dispatch with signing and a single retry, and
//! the token-bucket rate limiter that guards them.

pub mod api;
pub mod config;
pub mod crypto;
pub mod db_url;
pub mod error;
pub mod event_log;
pub mod files;
pub mod json;
pub mod live;
pub mod mcp;
pub mod models;
pub mod order;
pub mod rate_limit;
pub mod slug;
pub mod sorted;
pub mod text;
pub mod validate;
pub mod webhooks;
