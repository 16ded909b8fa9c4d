//! Configuration data for the gateway and its protection components, with
//! the validation rules a configuration must satisfy at startup.
//!
//! Loading a configuration from the environment or from a file is I/O and
//! lives with the embedding program; this module holds the validated shape.

use crate::text::str_eq;
use vstd::prelude::*;

verus! {

/// A configuration the gateway refuses to start with, and why.
#[derive(Debug, PartialEq, Eq, Structural)]
pub enum ConfigError {
    /// The downstream credential is missing.
    EmptyApiKey,
    /// The listening port is zero.
    ZeroPort,
    /// The worker count is zero.
    ZeroWorkers,
    /// The downstream token budget is zero.
    ZeroMaxTokens,
    /// The sampling temperature lies outside the accepted range.
    TemperatureOutOfRange,
    /// The connection pool size is zero.
    ZeroConnectionPool,
    /// The cache is enabled with no capacity.
    ZeroCacheEntries,
    /// The circuit breaker is enabled with a zero failure threshold.
    ZeroFailureThreshold,
    /// The global admission rate is zero.
    ZeroGlobalRate,
}

pub struct ServerConfig {
    pub host: String,
    pub port: u16,
    pub workers: usize,
    pub timeout_seconds: u64,
    pub max_connections: usize,
    pub cors_enabled: bool,
}

/// Downstream API settings.  The sampling temperature is held in thousandths
/// so that the configuration stays within exactly representable values.
pub struct DeepSeekConfig {
    pub api_key: String,
    pub base_url: String,
    pub model: String,
    pub max_tokens: u32,
    pub temperature_milli: u32,
    pub timeout_seconds: u64,
    pub retry_attempts: usize,
    pub rate_limit_per_minute: u32,
}

pub struct McpCapabilities {
    pub tools: bool,
    pub resources: bool,
    pub prompts: bool,
    pub sampling: bool,
}

pub struct McpConfig {
    pub protocol_version: String,
    pub capabilities: McpCapabilities,
    pub tools: Vec<String>,
    pub resources: Vec<String>,
}

pub struct LoggingConfig {
    pub level: String,
    pub format: String,
    pub file: Option<String>,
    pub rotation: bool,
    pub max_size_mb: u64,
    pub max_files: u32,
}

pub struct MetricsConfig {
    pub enabled: bool,
    pub port: u16,
    pub path: String,
    pub collect_detailed: bool,
}

pub struct PerformanceConfig {
    pub connection_pool_size: usize,
    pub max_concurrent_requests: usize,
    pub request_timeout_ms: u64,
    pub routing_timeout_ms: u64,
    pub file_processing_concurrency: usize,
    pub enable_request_deduplication: bool,
    pub enable_streaming: bool,
}

pub struct CacheConfig {
    pub enabled: bool,
    pub ttl_seconds: u64,
    pub max_entries: usize,
    pub cache_response_bodies: bool,
    pub cache_file_contents: bool,
    pub invalidation_strategy: String,
}

pub struct CircuitBreakerConfig {
    pub enabled: bool,
    pub failure_threshold: usize,
    pub recovery_timeout_seconds: u64,
    pub half_open_max_calls: usize,
    pub timeout_duration_ms: u64,
}

pub struct Config {
    pub server: ServerConfig,
    pub deepseek: DeepSeekConfig,
    pub mcp: McpConfig,
    pub logging: LoggingConfig,
    pub metrics: MetricsConfig,
    pub performance: PerformanceConfig,
    pub cache: CacheConfig,
    pub circuit_breaker: CircuitBreakerConfig,
}

/// Highest accepted sampling temperature, in thousandths.
pub const MAX_TEMPERATURE_MILLI: u32 = 2000;

/// The conditions a configuration must meet to be accepted.
pub open spec fn config_valid(c: &Config) -> bool {
    &&& c.deepseek.api_key@.len() > 0
    &&& c.server.port > 0
    &&& c.server.workers > 0
    &&& c.deepseek.max_tokens > 0
    &&& c.deepseek.temperature_milli <= MAX_TEMPERATURE_MILLI
    &&& c.performance.connection_pool_size > 0
    &&& (c.cache.enabled ==> c.cache.max_entries > 0)
    &&& (c.circuit_breaker.enabled ==> c.circuit_breaker.failure_threshold > 0)
}

impl Config {
    /// Accepts the configuration exactly when every startup rule holds, and
    /// names the first rule broken otherwise.
    pub fn validate(&self) -> (r: Result<(), ConfigError>)
        ensures
            r is Ok <==> config_valid(self),
            self.deepseek.api_key@.len() == 0 ==> r == Result::<(), ConfigError>::Err(
                ConfigError::EmptyApiKey,
            ),
    {
        if self.deepseek.api_key.unicode_len() == 0 {
            return Err(ConfigError::EmptyApiKey);
        }
        if self.server.port == 0 {
            return Err(ConfigError::ZeroPort);
        }
        if self.server.workers == 0 {
            return Err(ConfigError::ZeroWorkers);
        }
        if self.deepseek.max_tokens == 0 {
            return Err(ConfigError::ZeroMaxTokens);
        }
        if self.deepseek.temperature_milli > MAX_TEMPERATURE_MILLI {
            return Err(ConfigError::TemperatureOutOfRange);
        }
        if self.performance.connection_pool_size == 0 {
            return Err(ConfigError::ZeroConnectionPool);
        }
        if self.cache.enabled && self.cache.max_entries == 0 {
            return Err(ConfigError::ZeroCacheEntries);
        }
        if self.circuit_breaker.enabled && self.circuit_breaker.failure_threshold == 0 {
            return Err(ConfigError::ZeroFailureThreshold);
        }
        Ok(())
    }

    /// The downstream credential, as configured.
    pub fn deepseek_api_key(&self) -> (r: &str)
        ensures
            r@ == self.deepseek.api_key@,
    {
        self.deepseek.api_key.as_str()
    }

    /// Production mode: info-level logging with metrics collection on.
    pub fn is_production(&self) -> (r: bool)
        ensures
            r == (self.logging.level@ == "info"@ && self.metrics.enabled),
    {
        str_eq(self.logging.level.as_str(), "info") && self.metrics.enabled
    }

    /// The routing budget, in milliseconds.
    pub fn get_routing_timeout(&self) -> (r: u64)
        ensures
            r == self.performance.routing_timeout_ms,
    {
        self.performance.routing_timeout_ms
    }

    /// The downstream request budget, in milliseconds.
    pub fn get_request_timeout(&self) -> (r: u64)
        ensures
            r == self.performance.request_timeout_ms,
    {
        self.performance.request_timeout_ms
    }

    /// The circuit-breaker call budget, in milliseconds.
    pub fn get_circuit_breaker_timeout(&self) -> (r: u64)
        ensures
            r == self.circuit_breaker.timeout_duration_ms,
    {
        self.circuit_breaker.timeout_duration_ms
    }

    /// The cache lifetime, in milliseconds.
    pub fn get_cache_ttl(&self) -> (r: u64)
        ensures
            ({
                let t = self.cache.ttl_seconds as int * 1000;
                r as int == if t > u64::MAX as int {
                    u64::MAX as int
                } else {
                    t
                }
            }),
    {
        match self.cache.ttl_seconds.checked_mul(1000) {
            Some(v) => v,
            None => u64::MAX,
        }
    }
}

} // verus!
