//! Protection core for a gateway that fronts a downstream language-model API:
//! input validation and sanitization, layered admission control, failure
//! isolation, response memoization, audit logging and secret handling.

pub mod audit;
pub mod breaker;
pub mod config;
pub mod deepseek;
pub mod health;
pub mod rate_limiter;
pub mod redact;
pub mod sanitize;
pub mod security;
pub mod text;
pub mod validation;
