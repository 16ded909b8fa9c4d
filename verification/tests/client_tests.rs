use deepseek_mcp_bridge::audit::{
    severity_log_level, u32_to_string, AuditLogEntry, EventSeverity, LogLevel, SecurityAuditor,
    SecurityEventType,
};
use deepseek_mcp_bridge::breaker::{BreakerState, CircuitBreaker};
use deepseek_mcp_bridge::config::{
    CacheConfig, CircuitBreakerConfig, Config, ConfigError, DeepSeekConfig, LoggingConfig,
    McpCapabilities, McpConfig, MetricsConfig, PerformanceConfig, ServerConfig,
};
use deepseek_mcp_bridge::deepseek::{CallPlan, DeepSeekClient, Message, RetryPlan};

fn breaker_config(enabled: bool) -> CircuitBreakerConfig {
    CircuitBreakerConfig {
        enabled,
        failure_threshold: 3,
        recovery_timeout_seconds: 60,
        half_open_max_calls: 2,
        timeout_duration_ms: 5000,
    }
}

fn test_config() -> Config {
    Config {
        server: ServerConfig {
            host: "127.0.0.1".to_string(),
            port: 8080,
            workers: 4,
            timeout_seconds: 30,
            max_connections: 1000,
            cors_enabled: true,
        },
        deepseek: DeepSeekConfig {
            api_key: "test_api_key_12345678901234567890".to_string(),
            base_url: "https://api.deepseek.com".to_string(),
            model: "deepseek-chat".to_string(),
            max_tokens: 4096,
            temperature_milli: 700,
            timeout_seconds: 60,
            retry_attempts: 3,
            rate_limit_per_minute: 60,
        },
        mcp: McpConfig {
            protocol_version: "2024-11-05".to_string(),
            capabilities: McpCapabilities {
                tools: true,
                resources: true,
                prompts: true,
                sampling: true,
            },
            tools: vec!["search".to_string()],
            resources: vec!["files".to_string()],
        },
        logging: LoggingConfig {
            level: "debug".to_string(),
            format: "json".to_string(),
            file: None,
            rotation: true,
            max_size_mb: 100,
            max_files: 10,
        },
        metrics: MetricsConfig {
            enabled: false,
            port: 9090,
            path: "/metrics".to_string(),
            collect_detailed: true,
        },
        performance: PerformanceConfig {
            connection_pool_size: 10,
            max_concurrent_requests: 100,
            request_timeout_ms: 30000,
            routing_timeout_ms: 100,
            file_processing_concurrency: 8,
            enable_request_deduplication: true,
            enable_streaming: true,
        },
        cache: CacheConfig {
            enabled: true,
            ttl_seconds: 300,
            max_entries: 1000,
            cache_response_bodies: true,
            cache_file_contents: true,
            invalidation_strategy: "ttl".to_string(),
        },
        circuit_breaker: breaker_config(true),
    }
}

#[test]
fn test_breaker_opens_after_exact_threshold() {
    let mut breaker = CircuitBreaker::new(breaker_config(true));
    let now: u64 = 1000;

    breaker.record_failure(now);
    breaker.record_failure(now);
    assert_eq!(breaker.state, BreakerState::Closed);
    breaker.record_failure(now);
    assert_eq!(breaker.state, BreakerState::Open);
    assert!(breaker.is_open());
}

#[test]
fn test_breaker_denies_until_recovery_then_admits_trials() {
    let mut breaker = CircuitBreaker::new(breaker_config(true));
    let t_fail: u64 = 1000;
    for _ in 0..3 {
        breaker.record_failure(t_fail);
    }

    // denied until the recovery timeout has elapsed
    assert!(!breaker.can_execute(t_fail));
    assert!(!breaker.can_execute(t_fail + 60));

    // once elapsed, exactly half_open_max_calls trials are admitted
    assert!(breaker.can_execute(t_fail + 61));
    assert_eq!(breaker.state, BreakerState::HalfOpen);
    assert!(breaker.can_execute(t_fail + 61));
    assert!(!breaker.can_execute(t_fail + 61));
}

#[test]
fn test_breaker_success_closes_and_failure_reopens() {
    let mut breaker = CircuitBreaker::new(breaker_config(true));
    for _ in 0..3 {
        breaker.record_failure(1000);
    }
    assert!(breaker.can_execute(1100));
    breaker.record_success();
    assert_eq!(breaker.state, BreakerState::Closed);
    assert_eq!(breaker.failures, 0);
    assert!(breaker.can_execute(1100));

    // in half-open, one failure reopens immediately
    for _ in 0..3 {
        breaker.record_failure(2000);
    }
    assert!(breaker.can_execute(2061));
    breaker.record_failure(2061);
    assert_eq!(breaker.state, BreakerState::Open);
}

#[test]
fn test_breaker_disabled_always_permits() {
    let mut breaker = CircuitBreaker::new(breaker_config(false));
    for _ in 0..10 {
        breaker.record_failure(1000);
    }
    assert!(breaker.can_execute(1000));
    assert_eq!(breaker.state, BreakerState::Closed);
}

fn chat_request(client: &DeepSeekClient, text: &str) -> deepseek_mcp_bridge::deepseek::DeepSeekRequest {
    client.create_chat_request(vec![Message { role: "user".to_string(), content: text.to_string() }])
}

fn response(id: &str) -> deepseek_mcp_bridge::deepseek::DeepSeekResponse {
    deepseek_mcp_bridge::deepseek::DeepSeekResponse {
        id: id.to_string(),
        object: "chat.completion".to_string(),
        created: 1,
        model: "deepseek-chat".to_string(),
        choices: vec![],
        usage: None,
    }
}

#[test]
fn test_cache_returns_entry_within_ttl_and_never_after() {
    let mut client = DeepSeekClient::new(test_config()).unwrap();
    let req = chat_request(&client, "ping");
    let t0: u64 = 1_000_000;

    assert!(matches!(client.begin_chat(&req, t0), CallPlan::Attempt));
    let _ = client.on_attempt_success(&req, response("r-1"), t0);

    // any read younger than the lifetime answers the memoized response
    match client.begin_chat(&req, t0 + 299_999) {
        CallPlan::CachedHit(resp) => assert_eq!(resp.id, "r-1"),
        _ => panic!("an unexpired entry must answer the call"),
    }
    match client.begin_chat(&req, t0 + 300_000) {
        CallPlan::CachedHit(resp) => assert_eq!(resp.id, "r-1"),
        _ => panic!("an entry at exactly its lifetime still answers"),
    }

    // past the lifetime the entry is never returned
    assert!(matches!(client.begin_chat(&req, t0 + 300_001), CallPlan::Attempt));

    let metrics = client.get_performance_metrics();
    assert_eq!(metrics.cache_hits, 2);
    assert_eq!(metrics.cache_misses, 2);
}

#[test]
fn test_cache_differs_by_request_content() {
    let mut client = DeepSeekClient::new(test_config()).unwrap();
    let req_a = chat_request(&client, "alpha");
    let req_b = chat_request(&client, "beta");
    let t0: u64 = 2_000_000;

    assert!(matches!(client.begin_chat(&req_a, t0), CallPlan::Attempt));
    let _ = client.on_attempt_success(&req_a, response("a"), t0);
    // a different prompt does not hit the memoized entry
    assert!(matches!(client.begin_chat(&req_b, t0 + 1), CallPlan::Attempt));
    match client.begin_chat(&req_a, t0 + 1) {
        CallPlan::CachedHit(resp) => assert_eq!(resp.id, "a"),
        _ => panic!("same request must hit"),
    }
}

#[test]
fn test_open_breaker_fails_fast() {
    let mut client = DeepSeekClient::new(test_config()).unwrap();
    let req = chat_request(&client, "x");
    let t0: u64 = 3_000_000;

    assert!(matches!(client.begin_chat(&req, t0), CallPlan::Attempt));
    // three failed attempts open the breaker
    assert!(matches!(client.on_attempt_failure(1, t0), RetryPlan::RetryAfter { .. }));
    assert!(matches!(client.on_attempt_failure(2, t0), RetryPlan::RetryAfter { .. }));
    assert!(matches!(client.on_attempt_failure(3, t0), RetryPlan::GiveUp));
    assert!(matches!(client.begin_chat(&req, t0 + 1000), CallPlan::CircuitOpen));
    let metrics = client.get_performance_metrics();
    assert_eq!(metrics.circuit_breaker_trips, 1);
    assert_eq!(metrics.failed_requests, 1);
}

#[test]
fn test_retry_backoff_doubles_with_bounded_jitter() {
    let mut client = DeepSeekClient::new(test_config()).unwrap();
    client.config.deepseek.retry_attempts = 10;
    let t0: u64 = 4_000_000;

    for (attempt, base) in [(1u64, 1000u64), (2, 2000), (3, 4000), (4, 8000)] {
        match client.on_attempt_failure(attempt as usize, t0) {
            RetryPlan::RetryAfter { delay_ms } => {
                assert!(delay_ms >= base, "delay {delay_ms} below base {base}");
                assert!(delay_ms < base + base / 4 + 1, "delay {delay_ms} above jitter bound");
            }
            RetryPlan::GiveUp => panic!("attempt {attempt} is within the budget"),
        }
    }
}

#[test]
fn test_cache_sweep_drops_expired_entries() {
    let mut client = DeepSeekClient::new(test_config()).unwrap();
    let req = chat_request(&client, "sweep");
    let t0: u64 = 5_000_000;
    assert!(matches!(client.begin_chat(&req, t0), CallPlan::Attempt));
    let _ = client.on_attempt_success(&req, response("s"), t0);
    assert_eq!(client.response_cache.len(), 1);
    client.cleanup_expired_cache(t0 + 300_001);
    assert_eq!(client.response_cache.len(), 0);
}

#[test]
fn test_client_requires_credential() {
    let mut config = test_config();
    config.deepseek.api_key = String::new();
    assert!(DeepSeekClient::new(config).is_err());
}

#[test]
fn test_config_validation_names_first_broken_rule() {
    let good = test_config();
    assert!(good.validate().is_ok());

    let mut no_key = test_config();
    no_key.deepseek.api_key = String::new();
    assert_eq!(no_key.validate(), Err(ConfigError::EmptyApiKey));

    let mut hot = test_config();
    hot.deepseek.temperature_milli = 2001;
    assert_eq!(hot.validate(), Err(ConfigError::TemperatureOutOfRange));

    let mut no_cache = test_config();
    no_cache.cache.max_entries = 0;
    assert_eq!(no_cache.validate(), Err(ConfigError::ZeroCacheEntries));

    assert!(good.is_production() == false);
    assert_eq!(good.get_cache_ttl(), 300_000);
    assert_eq!(good.get_routing_timeout(), 100);
}

#[test]
fn test_audit_entry_creation() {
    let entry = AuditLogEntry::new(
        SecurityEventType::Authentication,
        EventSeverity::Medium,
        "test_action".to_string(),
        1_000,
    )
    .with_client_id("test_client".to_string())
    .with_detail("test_key".to_string(), "test_value".to_string());

    assert_eq!(entry.action, "test_action");
    assert_eq!(entry.client_id, Some("test_client".to_string()));
    assert_eq!(entry.details.get("test_key"), Some(&"test_value".to_string()));
}

#[test]
fn test_sensitive_data_sanitization() {
    let entry = AuditLogEntry::new(
        SecurityEventType::Authentication,
        EventSeverity::Medium,
        "test".to_string(),
        1_000,
    )
    .with_detail("api_key".to_string(), "api_key: sk-1234567890".to_string())
    .with_detail("email".to_string(), "user@example.com".to_string());

    assert_eq!(entry.details.get("api_key"), Some(&"[API_KEY]".to_string()));
    assert_eq!(entry.details.get("email"), Some(&"[EMAIL]".to_string()));
}

#[test]
fn test_security_auditor() {
    let mut auditor = SecurityAuditor::new(true);

    auditor.log_authentication(
        Some("test_client".to_string()),
        Some("127.0.0.1".to_string()),
        false,
        vec![("reason".to_string(), "invalid_credentials".to_string())],
        1_000,
    );

    let summary = auditor.generate_security_summary();
    assert!(summary.total_events > 0);
}

#[test]
fn test_recorded_secret_detail_is_only_the_placeholder() {
    let mut auditor = SecurityAuditor::new(true);
    auditor.log_suspicious_activity(
        "c9".to_string(),
        None,
        "probe".to_string(),
        30,
        vec![("api_key".to_string(), "api_key: sk-XXXX".to_string())],
        2_000,
    );
    let events = auditor.get_recent_events(None);
    assert_eq!(events.len(), 1);
    let stored = events[0].details.get("api_key").unwrap();
    assert_eq!(stored, "[API_KEY]");
    assert!(!stored.contains("sk-XXXX"));
}

#[test]
fn test_auditor_risk_adjustment_accumulates() {
    let mut auditor = SecurityAuditor::new(true);
    // repeated failures raise the pattern-based adjustment of later events
    for _ in 0..6 {
        auditor.log_authentication(Some("c1".to_string()), None, false, vec![], 3_000);
    }
    let events = auditor.get_recent_events(Some(1));
    // the sixth failure crosses the top threshold: adjustment 20 on a base of 0
    assert_eq!(events[0].risk_score, 20);
    let summary = auditor.generate_security_summary();
    assert_eq!(summary.total_events, 6);
    assert_eq!(summary.clients_tracked, 1);
    assert_eq!(summary.total_failed_attempts, 6);
}

#[test]
fn test_auditor_ring_is_bounded() {
    let mut auditor = SecurityAuditor::new(true);
    auditor.max_buffer_size = 3;
    for i in 0..5u32 {
        let entry = AuditLogEntry::new(
            SecurityEventType::DataAccess,
            EventSeverity::Info,
            format!("a{i}"),
            i as u64,
        );
        auditor.log_event(entry);
    }
    assert_eq!(auditor.buffer.len(), 3);
    // the oldest two events were evicted
    assert_eq!(auditor.buffer[0].action, "a2");
    assert_eq!(auditor.buffer[2].action, "a4");
}

#[test]
fn test_disabled_auditor_records_nothing() {
    let mut auditor = SecurityAuditor::new(false);
    auditor.log_data_access(None, None, "m".to_string(), "r".to_string(), true, 1);
    assert_eq!(auditor.buffer.len(), 0);
}

#[test]
fn test_user_agent_sanitized_on_entry() {
    let entry = AuditLogEntry::new(
        SecurityEventType::DataAccess,
        EventSeverity::Info,
        "ua".to_string(),
        1,
    )
    .with_user_agent("curl Bearer abcdef Authorization: x".to_string());
    assert_eq!(entry.user_agent.unwrap(), "curl [TOKEN]abcdef [AUTH] x");
}

#[test]
fn test_severity_log_levels() {
    assert_eq!(severity_log_level(EventSeverity::Critical), LogLevel::Error);
    assert_eq!(severity_log_level(EventSeverity::High), LogLevel::Error);
    assert_eq!(severity_log_level(EventSeverity::Medium), LogLevel::Warn);
    assert_eq!(severity_log_level(EventSeverity::Low), LogLevel::Info);
    assert_eq!(severity_log_level(EventSeverity::Info), LogLevel::Debug);
}

#[test]
fn test_decimal_rendering() {
    assert_eq!(u32_to_string(0), "0");
    assert_eq!(u32_to_string(7), "7");
    assert_eq!(u32_to_string(12345), "12345");
    assert_eq!(u32_to_string(u32::MAX), "4294967295");
}
