use deepseek_mcp_bridge::rate_limiter::{
    ClientIdentifier, LimitType, RateLimitConfig, RateLimitDecision, RateLimitEntry,
    RequestContext, SecurityRateLimiter, SuspiciousActivityTracker,
};

fn request(client: ClientIdentifier, now_ms: u64, size: usize) -> RequestContext {
    RequestContext {
        client,
        method: "test".to_string(),
        tool_name: None,
        timestamp_ms: now_ms,
        request_size: size,
    }
}

fn client_ip(ip: &str) -> ClientIdentifier {
    ClientIdentifier::new().with_ip(ip.to_string())
}

#[test]
fn test_basic_rate_limiting() {
    let config = RateLimitConfig { per_client_requests_per_minute: 3, ..Default::default() };
    let mut limiter = SecurityRateLimiter::new(config).unwrap();
    let now: u64 = 1_000_000;

    // First 3 requests should pass
    for i in 0..3 {
        let decision = limiter.check_rate_limit(&request(client_ip("127.0.0.1"), now, 1000));
        match decision {
            RateLimitDecision::Allowed => {}
            _ => panic!("Request {} should be allowed", i),
        }
    }

    // 4th request should be rate limited
    let decision = limiter.check_rate_limit(&request(client_ip("127.0.0.1"), now, 1000));
    match decision {
        RateLimitDecision::RateLimited { .. } => {}
        _ => panic!("4th request should be rate limited"),
    }
}

#[test]
fn test_suspicious_activity_detection() {
    let config = RateLimitConfig::default();
    let mut limiter = SecurityRateLimiter::new(config).unwrap();
    let now: u64 = 5_000_000;

    // Simulate large requests that should trigger suspicious activity detection
    for _ in 0..10 {
        let _ = limiter.check_rate_limit(&request(client_ip("192.168.1.100"), now, 200_000));
    }

    let stats = limiter.get_statistics();
    assert!(stats.suspicious_clients > 0);
}

#[test]
fn test_per_client_window_boundary() {
    // client "c1" under a per-client allowance of 3: the first 3 requests in
    // the window pass, the 4th is denied by the per-client layer
    let config = RateLimitConfig { per_client_requests_per_minute: 3, ..Default::default() };
    let mut limiter = SecurityRateLimiter::new(config).unwrap();
    let client = ClientIdentifier::new().with_client_id("c1".to_string());
    let now: u64 = 60_000;

    for _ in 0..3 {
        let c = ClientIdentifier::new().with_client_id("c1".to_string());
        match limiter.check_rate_limit(&request(c, now, 100)) {
            RateLimitDecision::Allowed => {}
            other => panic!("expected admission, got {other:?}"),
        }
    }
    match limiter.check_rate_limit(&request(client, now, 100)) {
        RateLimitDecision::RateLimited { limit_type, limit, retry_after_seconds, .. } => {
            assert_eq!(limit_type, LimitType::PerClient);
            assert_eq!(limit, 3);
            assert_eq!(retry_after_seconds, 60);
        }
        RateLimitDecision::Allowed => panic!("4th request must be denied"),
    }
}

#[test]
fn test_window_forgets_old_requests() {
    // requests older than the window no longer count against the client
    let config = RateLimitConfig { per_client_requests_per_minute: 2, ..Default::default() };
    let mut limiter = SecurityRateLimiter::new(config).unwrap();
    let t0: u64 = 100_000;

    for _ in 0..2 {
        assert!(matches!(
            limiter.check_rate_limit(&request(client_ip("10.9.9.9"), t0, 10)),
            RateLimitDecision::Allowed
        ));
    }
    assert!(matches!(
        limiter.check_rate_limit(&request(client_ip("10.9.9.9"), t0, 10)),
        RateLimitDecision::RateLimited { .. }
    ));
    // one window later both old timestamps have aged out
    let later = t0 + 60_001;
    assert!(matches!(
        limiter.check_rate_limit(&request(client_ip("10.9.9.9"), later, 10)),
        RateLimitDecision::Allowed
    ));
}

#[test]
fn test_oversized_requests_raise_anomaly_denial() {
    // ten consecutive oversized requests from one client raise its risk
    // score; the subsequent check is denied by the anomaly layer
    let config = RateLimitConfig::default();
    let mut limiter = SecurityRateLimiter::new(config).unwrap();
    let now: u64 = 9_000_000;

    for _ in 0..10 {
        let _ = limiter.check_rate_limit(&request(client_ip("172.16.0.9"), now, 200_000));
    }
    match limiter.check_rate_limit(&request(client_ip("172.16.0.9"), now + 1_000, 500)) {
        RateLimitDecision::RateLimited { limit_type, limit, retry_after_seconds, .. } => {
            assert_eq!(limit_type, LimitType::SuspiciousActivity);
            assert_eq!(limit, 50);
            assert_eq!(retry_after_seconds, 300);
        }
        RateLimitDecision::Allowed => panic!("the check after ten oversized requests must be denied"),
    }
}

#[test]
fn test_global_bucket_denies_when_drained() {
    let config = RateLimitConfig { global_requests_per_second: 1, ..Default::default() };
    let mut limiter = SecurityRateLimiter::new(config).unwrap();
    let now: u64 = 50_000;

    assert!(matches!(
        limiter.check_rate_limit(&request(client_ip("10.1.1.1"), now, 10)),
        RateLimitDecision::Allowed
    ));
    match limiter.check_rate_limit(&request(client_ip("10.1.1.2"), now, 10)) {
        RateLimitDecision::RateLimited { limit_type, limit, retry_after_seconds, .. } => {
            assert_eq!(limit_type, LimitType::Global);
            assert_eq!(limit, 1);
            assert_eq!(retry_after_seconds, 1);
        }
        RateLimitDecision::Allowed => panic!("second instant request must drain the bucket"),
    }
}

#[test]
fn test_tool_bucket_denies_when_drained() {
    let mut config = RateLimitConfig::default();
    config.tool_specific_limits.deepseek_query_per_minute = 1;
    let mut limiter = SecurityRateLimiter::new(config).unwrap();
    let now: u64 = 70_000;
    let mk = |now| RequestContext {
        client: client_ip("10.2.2.2"),
        method: "tools/call".to_string(),
        tool_name: Some("query_deepseek".to_string()),
        timestamp_ms: now,
        request_size: 100,
    };

    assert!(matches!(limiter.check_rate_limit(&mk(now)), RateLimitDecision::Allowed));
    match limiter.check_rate_limit(&mk(now)) {
        RateLimitDecision::RateLimited { limit_type, limit, .. } => {
            assert_eq!(limit_type, LimitType::ToolDeepseekQuery);
            assert_eq!(limit, 1);
        }
        RateLimitDecision::Allowed => panic!("second tool call must drain the bucket"),
    }
}

#[test]
fn test_disabled_limiter_admits_everything() {
    let config = RateLimitConfig { enabled: false, per_client_requests_per_minute: 1, ..Default::default() };
    let mut limiter = SecurityRateLimiter::new(config).unwrap();
    for _ in 0..10 {
        assert!(matches!(
            limiter.check_rate_limit(&request(client_ip("10.3.3.3"), 1000, 10)),
            RateLimitDecision::Allowed
        ));
    }
}

#[test]
fn test_zero_global_rate_is_refused() {
    let config = RateLimitConfig { global_requests_per_second: 0, ..Default::default() };
    assert!(SecurityRateLimiter::new(config).is_err());
}

#[test]
fn test_client_keys() {
    let both = ClientIdentifier::new()
        .with_ip("1.2.3.4".to_string())
        .with_client_id("alice".to_string());
    assert_eq!(both.key(), "1.2.3.4:alice");

    let ip_only = ClientIdentifier::new().with_ip("1.2.3.4".to_string());
    assert_eq!(ip_only.key(), "ip:1.2.3.4");

    let client_only = ClientIdentifier::new().with_client_id("alice".to_string());
    assert_eq!(client_only.key(), "client:alice");

    // a user-agent-only client is keyed by a digest, never the agent text
    let ua = ClientIdentifier::new().with_user_agent("agent/1.0".to_string());
    let key = ua.key();
    assert!(key.starts_with("ua:"));
    assert_eq!(key.len(), 19);
    assert_ne!(key, "ua:agent/1.0");

    // a fully anonymous client draws a fresh random key each time
    let anon = ClientIdentifier::new();
    let k1 = anon.key();
    let k2 = ClientIdentifier::new().key();
    assert!(k1.starts_with("anonymous:"));
    assert_eq!(k1.len(), 46);
    assert_ne!(k1, k2);
}

#[test]
fn test_window_entry_cleanup_and_count() {
    let mut entry = RateLimitEntry::new(1_000);
    entry.add_request(10_000);
    entry.add_request(50_000);
    entry.add_request(65_000);
    assert_eq!(entry.count_requests_in_window(65_000, 60_000), 3);
    entry.cleanup_old_requests(80_000, 60_000);
    // 10_000 has aged out of the window that ends at 80_000
    assert_eq!(entry.requests, vec![50_000, 65_000]);
    assert_eq!(entry.count_requests_in_window(80_000, 60_000), 2);
}

#[test]
fn test_risk_score_decays_per_minute() {
    let mut tracker = SuspiciousActivityTracker::new(0);
    tracker.failed_attempts = 10;
    // weighted sum 50, minus one point per elapsed minute
    assert_eq!(tracker.calculate_risk_score(0), 50);
    assert_eq!(tracker.calculate_risk_score(5 * 60_000), 45);
    assert_eq!(tracker.calculate_risk_score(100 * 60_000), 0);
}

#[test]
fn test_block_client_maximizes_risk() {
    let config = RateLimitConfig::default();
    let mut limiter = SecurityRateLimiter::new(config).unwrap();
    let now: u64 = 42_000;
    // create the tracker, then block the client by hand
    let _ = limiter.check_rate_limit(&request(client_ip("10.4.4.4"), now, 10));
    limiter.block_client("ip:10.4.4.4", 600);
    match limiter.check_rate_limit(&request(client_ip("10.4.4.4"), now, 10)) {
        RateLimitDecision::RateLimited { limit_type, .. } => {
            assert_eq!(limit_type, LimitType::SuspiciousActivity);
        }
        RateLimitDecision::Allowed => panic!("a blocked client must be denied"),
    }
}

#[test]
fn test_cleanup_evicts_stale_clients() {
    let config = RateLimitConfig::default();
    let mut limiter = SecurityRateLimiter::new(config).unwrap();
    let t0: u64 = 10_000;
    let _ = limiter.check_rate_limit(&request(client_ip("10.5.5.5"), t0, 10));
    assert_eq!(limiter.get_statistics().total_clients, 1);
    limiter.cleanup_old_entries(t0 + 3_600_001);
    let stats = limiter.get_statistics();
    assert_eq!(stats.total_clients, 0);
    assert_eq!(stats.suspicious_clients, 0);
}

#[test]
fn test_cleanup_keeps_active_trackers() {
    // eviction goes by inactivity: an old but recently active client stays
    let config = RateLimitConfig::default();
    let mut limiter = SecurityRateLimiter::new(config).unwrap();
    let t0: u64 = 20_000;
    let _ = limiter.check_rate_limit(&request(client_ip("10.7.7.7"), t0, 10));
    // the client comes back within the hour, refreshing its tracker
    let t1 = t0 + 3_000_000;
    let _ = limiter.check_rate_limit(&request(client_ip("10.7.7.7"), t1, 10));
    // an hour after the first sighting, but not after the last
    limiter.cleanup_old_entries(t0 + 3_600_001);
    assert_eq!(limiter.get_statistics().suspicious_clients, 1);
}

#[test]
fn test_statistics_count_admissions_and_blocks() {
    let config = RateLimitConfig { per_client_requests_per_minute: 1, ..Default::default() };
    let mut limiter = SecurityRateLimiter::new(config).unwrap();
    let now: u64 = 77_000;
    let _ = limiter.check_rate_limit(&request(client_ip("10.6.6.6"), now, 10));
    let _ = limiter.check_rate_limit(&request(client_ip("10.6.6.6"), now, 10));
    let stats = limiter.get_statistics();
    assert_eq!(stats.total_requests, 1);
    assert_eq!(stats.total_blocked, 1);
    assert_eq!(stats.per_client_rpm, 1);
    assert!(stats.enabled);
}
