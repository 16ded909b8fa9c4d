//! Layered admission control: a global token bucket, a per-client sliding
//! window, per-tool-category leaky buckets, and an anomaly score with time
//! decay.  Checks run in that order and the first denial wins; only a fully
//! admitted request is appended to the client's window.
//!
//! The token buckets of the outside crates answer according to the real
//! clock, so their outcomes are free inputs here: the decision taken for
//! every possible outcome is fixed by `decide_admission`, and the admission
//! entry points promise exactly that.

use crate::config::ConfigError;
use crate::text::{new_uuid_string, str_chars, chars_to_string, str_eq};
use vstd::prelude::*;

verus! {

/// Sliding-window width for per-client counting, in milliseconds.
pub const CLIENT_WINDOW_MS: u64 = 60_000;

/// Window for rapid-burst detection, in milliseconds.
pub const BURST_WINDOW_MS: u64 = 1_000;

/// Admissions in the burst window above which a request counts as rapid.
pub const RAPID_BURST_LIMIT: usize = 5;

/// Request size above which a request counts as oversized, in bytes.
pub const LARGE_REQUEST_BYTES: usize = 100_000;

/// Risk score above which a client is denied.
pub const RISK_DENY_THRESHOLD: u32 = 50;

/// Risk score above which a client is merely suspicious.
pub const RISK_WARN_THRESHOLD: u32 = 25;

/// Cooldown told to an anomalous client, in seconds.
pub const ANOMALY_RETRY_SECS: u64 = 300;

/// Entries inactive this long are evicted by cleanup, in milliseconds.
pub const STALE_ENTRY_MS: u64 = 3_600_000;

/// Rate limit configuration for different request types.
pub struct RateLimitConfig {
    pub global_requests_per_second: u32,
    pub global_requests_per_minute: u32,
    pub per_ip_requests_per_minute: u32,
    pub per_client_requests_per_minute: u32,
    pub burst_allowance: u32,
    pub tool_specific_limits: ToolSpecificLimits,
    pub enabled: bool,
}

pub struct ToolSpecificLimits {
    pub deepseek_query_per_minute: u32,
    pub file_analysis_per_minute: u32,
    pub health_check_per_minute: u32,
    pub heavy_operations_per_hour: u32,
}

impl Default for RateLimitConfig {
    /// The stock configuration.
    fn default() -> (r: RateLimitConfig)
        ensures
            r.global_requests_per_second == 100,
            r.global_requests_per_minute == 1000,
            r.per_ip_requests_per_minute == 60,
            r.per_client_requests_per_minute == 100,
            r.burst_allowance == 10,
            r.tool_specific_limits.deepseek_query_per_minute == 30,
            r.tool_specific_limits.file_analysis_per_minute == 20,
            r.tool_specific_limits.health_check_per_minute == 60,
            r.tool_specific_limits.heavy_operations_per_hour == 100,
            r.enabled,
    {
        RateLimitConfig {
            global_requests_per_second: 100,
            global_requests_per_minute: 1000,
            per_ip_requests_per_minute: 60,
            per_client_requests_per_minute: 100,
            burst_allowance: 10,
            tool_specific_limits: ToolSpecificLimits {
                deepseek_query_per_minute: 30,
                file_analysis_per_minute: 20,
                health_check_per_minute: 60,
                heavy_operations_per_hour: 100,
            },
            enabled: true,
        }
    }
}

/// Which admission layer denied a request.
#[derive(Clone, Copy, Debug, PartialEq, Eq, Structural)]
pub enum LimitType {
    Global,
    PerClient,
    ToolDeepseekQuery,
    ToolFileAnalysis,
    SuspiciousActivity,
}

/// Rate limiting decision.
#[derive(Debug, PartialEq, Eq, Structural)]
pub enum RateLimitDecision {
    Allowed,
    RateLimited { retry_after_seconds: u64, limit_type: LimitType, current_count: u32, limit: u32 },
}

/// Client identifier for rate limiting.
pub struct ClientIdentifier {
    pub ip: Option<String>,
    pub client_id: Option<String>,
    pub user_agent: Option<String>,
}

/// Request context for rate limiting.
pub struct RequestContext {
    pub client: ClientIdentifier,
    pub method: String,
    pub tool_name: Option<String>,
    pub timestamp_ms: u64,
    pub request_size: usize,
}

/// Per-client sliding window: admission timestamps and counters.
pub struct RateLimitEntry {
    pub requests: Vec<u64>,
    pub last_request: u64,
    pub total_requests: u64,
    pub blocked_requests: u64,
}

/// A timestamp still counts at `now` for a window of the given width.
pub open spec fn in_window(t: u64, now: u64, window: u64) -> bool {
    t + window > now
}

/// The timestamps of `s`, from `i` on, that still count at `now`.
pub open spec fn win_from(s: Seq<u64>, i: int, now: u64, window: u64) -> Seq<u64>
    decreases s.len() - i when 0 <= i <= s.len()
{
    if i >= s.len() {
        Seq::empty()
    } else if in_window(s[i], now, window) {
        seq![s[i]] + win_from(s, i + 1, now, window)
    } else {
        win_from(s, i + 1, now, window)
    }
}

/// Every timestamp kept by the window filter still counts: its age is below
/// the window width.
pub proof fn lemma_win_from_fresh(s: Seq<u64>, i: int, now: u64, window: u64)
    requires
        0 <= i <= s.len(),
    ensures
        forall|m: int|
            0 <= m < win_from(s, i, now, window).len() ==> now - win_from(s, i, now, window)[m]
                < window,
    decreases s.len() - i,
{
    if i < s.len() {
        lemma_win_from_fresh(s, i + 1, now, window);
        if in_window(s[i], now, window) {
            assert forall|m: int|
                0 <= m < win_from(s, i, now, window).len() implies now - win_from(
                s,
                i,
                now,
                window,
            )[m] < window by {
                if m == 0 {
                    assert(win_from(s, i, now, window)[0] == s[i]);
                } else {
                    assert(win_from(s, i, now, window)[m] == win_from(s, i + 1, now, window)[m
                        - 1]);
                }
            }
        }
    }
}

/// Keeps the timestamps that still count.
#[verifier::loop_isolation(false)]
fn filter_window(v: &Vec<u64>, now: u64, window: u64) -> (out: Vec<u64>)
    ensures
        out@ == win_from(v@, 0, now, window),
{
    let mut out: Vec<u64> = Vec::new();
    let mut i: usize = 0;
    while i < v.len()
        invariant
            0 <= i <= v@.len(),
            win_from(v@, 0, now, window) == out@ + win_from(v@, i as int, now, window),
        decreases v@.len() - i,
    {
        let ghost out0 = out@;
        let ghost i0 = i as int;
        let t = v[i];
        if t > now || now - t < window {
            out.push(t);
        }
        i = i + 1;
        proof {
            assert(in_window(v@[i0], now, window) == (v@[i0] > now || now - v@[i0] < window));
            assert(out0 + win_from(v@, i0, now, window) =~= out@ + win_from(v@, i as int, now, window));
        }
    }
    proof {
        assert(win_from(v@, 0, now, window) =~= out@ + win_from(v@, i as int, now, window));
        assert(out@ + Seq::<u64>::empty() =~= out@);
    }
    out
}

/// Counts the timestamps that still count.
#[verifier::loop_isolation(false)]
fn count_window(v: &Vec<u64>, now: u64, window: u64) -> (r: usize)
    ensures
        r == win_from(v@, 0, now, window).len(),
{
    let mut count: usize = 0;
    let mut i: usize = 0;
    while i < v.len()
        invariant
            0 <= i <= v@.len(),
            count <= i,
            win_from(v@, 0, now, window).len() == count + win_from(v@, i as int, now, window).len(),
        decreases v@.len() - i,
    {
        let t = v[i];
        if t > now || now - t < window {
            count = count + 1;
        }
        i = i + 1;
    }
    count
}

impl RateLimitEntry {
    /// A window with no admissions yet.
    pub fn new(now_ms: u64) -> (r: RateLimitEntry)
        ensures
            r.requests@ =~= Seq::<u64>::empty(),
            r.last_request == now_ms,
            r.total_requests == 0,
            r.blocked_requests == 0,
    {
        RateLimitEntry {
            requests: Vec::new(),
            last_request: now_ms,
            total_requests: 0,
            blocked_requests: 0,
        }
    }

    /// Drops timestamps older than the window; afterwards every kept
    /// timestamp is younger than the window width.
    pub fn cleanup_old_requests(&mut self, now_ms: u64, window_ms: u64)
        ensures
            final(self).requests@ == win_from(old(self).requests@, 0, now_ms, window_ms),
            forall|m: int|
                0 <= m < final(self).requests@.len() ==> now_ms - final(self).requests@[m]
                    < window_ms,
            final(self).last_request == old(self).last_request,
            final(self).total_requests == old(self).total_requests,
            final(self).blocked_requests == old(self).blocked_requests,
    {
        proof {
            lemma_win_from_fresh(self.requests@, 0, now_ms, window_ms);
        }
        let kept = filter_window(&self.requests, now_ms, window_ms);
        self.requests = kept;
    }

    /// Number of timestamps in the trailing window.
    pub fn count_requests_in_window(&self, now_ms: u64, window_ms: u64) -> (r: usize)
        ensures
            r == win_from(self.requests@, 0, now_ms, window_ms).len(),
    {
        count_window(&self.requests, now_ms, window_ms)
    }

    /// Records an admission at `now`.
    pub fn add_request(&mut self, now_ms: u64)
        ensures
            final(self).requests@ == old(self).requests@.push(now_ms),
            final(self).last_request == now_ms,
            final(self).total_requests == sat_add_u64(old(self).total_requests as int),
            final(self).blocked_requests == old(self).blocked_requests,
    {
        self.requests.push(now_ms);
        self.last_request = now_ms;
        self.total_requests = self.total_requests.saturating_add(1);
    }

    /// Records a blocked request.
    pub fn record_blocked(&mut self)
        ensures
            final(self).blocked_requests == sat_add_u64(old(self).blocked_requests as int),
            final(self).requests@ == old(self).requests@,
            final(self).last_request == old(self).last_request,
            final(self).total_requests == old(self).total_requests,
    {
        self.blocked_requests = self.blocked_requests.saturating_add(1);
    }
}

/// `x + 1` held within `u64`.
pub open spec fn sat_add_u64(x: int) -> u64 {
    if x + 1 > u64::MAX as int {
        u64::MAX
    } else {
        (x + 1) as u64
    }
}

/// `x + 1` held within `u32`.
pub open spec fn sat_inc_u32(x: int) -> u32 {
    if x + 1 > u32::MAX as int {
        u32::MAX
    } else {
        (x + 1) as u32
    }
}

/// `x` clamped into `u32`.
pub open spec fn clamp_u32(x: int) -> u32 {
    if x > u32::MAX as int {
        u32::MAX
    } else if x < 0 {
        0u32
    } else {
        x as u32
    }
}

/// Per-client accumulators behind the anomaly score.  The first-seen time
/// drives the score's decay; the last-seen time drives staleness eviction.
#[derive(Clone, Copy)]
pub struct SuspiciousActivityTracker {
    pub rapid_requests_count: u32,
    pub failed_attempts: u32,
    pub large_requests_count: u32,
    pub unusual_patterns: u32,
    pub first_seen: u64,
    pub last_seen_ms: u64,
    pub risk_score: u32,
}

/// The weighted sum of the accumulators.  The oversize weight is chosen so
/// that a run of ten oversized requests alone crosses the deny threshold.
pub open spec fn weighted_score(t: SuspiciousActivityTracker) -> int {
    3 * t.rapid_requests_count + 5 * t.failed_attempts + 6 * t.large_requests_count + 4
        * t.unusual_patterns
}

/// Whole minutes since the client was first seen.
pub open spec fn age_minutes(t: SuspiciousActivityTracker, now_ms: u64) -> int {
    if now_ms > t.first_seen {
        (now_ms - t.first_seen) / 60_000
    } else {
        0
    }
}

/// The risk score: the weighted sum minus one point per elapsed minute,
/// floored at zero and held within `u32`.
pub open spec fn risk_spec(t: SuspiciousActivityTracker, now_ms: u64) -> u32 {
    clamp_u32(weighted_score(t) - age_minutes(t, now_ms))
}

impl SuspiciousActivityTracker {
    /// A tracker for a client first seen at `now`.
    pub fn new(now_ms: u64) -> (r: SuspiciousActivityTracker)
        ensures
            (r == SuspiciousActivityTracker {
                rapid_requests_count: 0u32,
                failed_attempts: 0u32,
                large_requests_count: 0u32,
                unusual_patterns: 0u32,
                first_seen: now_ms,
                last_seen_ms: now_ms,
                risk_score: 0u32,
            }),
    {
        SuspiciousActivityTracker {
            rapid_requests_count: 0,
            failed_attempts: 0,
            large_requests_count: 0,
            unusual_patterns: 0,
            first_seen: now_ms,
            last_seen_ms: now_ms,
            risk_score: 0,
        }
    }

    /// Recomputes and stores the risk score.
    pub fn calculate_risk_score(&mut self, now_ms: u64) -> (r: u32)
        ensures
            r == risk_spec(*old(self), now_ms),
            (*final(self) == SuspiciousActivityTracker { risk_score: r, ..*old(self) }),
    {
        let w: u64 = 3 * (self.rapid_requests_count as u64) + 5 * (self.failed_attempts as u64)
            + 6 * (self.large_requests_count as u64) + 4 * (self.unusual_patterns as u64);
        let age: u64 = if now_ms > self.first_seen {
            (now_ms - self.first_seen) / 60_000
        } else {
            0
        };
        let v: u64 = if w > age {
            w - age
        } else {
            0
        };
        let r: u32 = if v > u32::MAX as u64 {
            u32::MAX
        } else {
            v as u32
        };
        self.risk_score = r;
        r
    }
}

/// The digest that the SHA-256 hash assigns to a string; it depends on the
/// characters alone.
pub uninterp spec fn sha256_of(s: Seq<char>) -> Seq<u8>;

/// Relies on sha2::Sha256: a 32-byte digest that depends on the input alone.
#[verifier::external_body]
fn sha256_digest(s: &str) -> (r: Vec<u8>)
    ensures
        r@ == sha256_of(s@),
        r@.len() == 32,
{
    <sha2::Sha256 as sha2::Digest>::digest(s.as_bytes()).to_vec()
}

/// The lower-case hexadecimal digit for a value below sixteen.
pub open spec fn hex_digit(n: int) -> char {
    if n == 0 {
        '0'
    } else if n == 1 {
        '1'
    } else if n == 2 {
        '2'
    } else if n == 3 {
        '3'
    } else if n == 4 {
        '4'
    } else if n == 5 {
        '5'
    } else if n == 6 {
        '6'
    } else if n == 7 {
        '7'
    } else if n == 8 {
        '8'
    } else if n == 9 {
        '9'
    } else if n == 10 {
        'a'
    } else if n == 11 {
        'b'
    } else if n == 12 {
        'c'
    } else if n == 13 {
        'd'
    } else if n == 14 {
        'e'
    } else {
        'f'
    }
}

/// The lower-case hexadecimal form of the bytes from `i` on.
pub open spec fn hex_of(b: Seq<u8>, i: int) -> Seq<char>
    decreases b.len() - i when 0 <= i <= b.len()
{
    if i >= b.len() {
        Seq::empty()
    } else {
        seq![hex_digit(b[i] as int / 16), hex_digit(b[i] as int % 16)] + hex_of(b, i + 1)
    }
}

fn hex_digit_char(n: u8) -> (r: char)
    requires
        n < 16,
    ensures
        r == hex_digit(n as int),
{
    if n == 0 {
        '0'
    } else if n == 1 {
        '1'
    } else if n == 2 {
        '2'
    } else if n == 3 {
        '3'
    } else if n == 4 {
        '4'
    } else if n == 5 {
        '5'
    } else if n == 6 {
        '6'
    } else if n == 7 {
        '7'
    } else if n == 8 {
        '8'
    } else if n == 9 {
        '9'
    } else if n == 10 {
        'a'
    } else if n == 11 {
        'b'
    } else if n == 12 {
        'c'
    } else if n == 13 {
        'd'
    } else if n == 14 {
        'e'
    } else {
        'f'
    }
}

/// Encodes bytes as lower-case hexadecimal.
#[verifier::loop_isolation(false)]
fn hex_chars(b: &Vec<u8>) -> (out: Vec<char>)
    ensures
        out@ == hex_of(b@, 0),
        out@.len() == 2 * b@.len(),
{
    let mut out: Vec<char> = Vec::new();
    let mut i: usize = 0;
    while i < b.len()
        invariant
            0 <= i <= b@.len(),
            out@.len() == 2 * i,
            hex_of(b@, 0) == out@ + hex_of(b@, i as int),
        decreases b@.len() - i,
    {
        let ghost out0 = out@;
        let ghost i0 = i as int;
        let x = b[i];
        out.push(hex_digit_char(x / 16));
        out.push(hex_digit_char(x % 16));
        i = i + 1;
        proof {
            assert(out@ =~= out0 + seq![
                hex_digit(b@[i0] as int / 16),
                hex_digit(b@[i0] as int % 16),
            ]);
            assert(out0 + hex_of(b@, i0) =~= out@ + hex_of(b@, i as int));
        }
    }
    proof {
        assert(hex_of(b@, 0) =~= out@ + hex_of(b@, i as int));
        assert(out@ + Seq::<char>::empty() =~= out@);
    }
    out
}

pub open spec fn prefix_ip() -> Seq<char> {
    seq!['i', 'p', ':']
}

pub open spec fn prefix_client() -> Seq<char> {
    seq!['c', 'l', 'i', 'e', 'n', 't', ':']
}

pub open spec fn prefix_ua() -> Seq<char> {
    seq!['u', 'a', ':']
}

pub open spec fn prefix_anonymous() -> Seq<char> {
    seq!['a', 'n', 'o', 'n', 'y', 'm', 'o', 'u', 's', ':']
}

/// The admission-control partition key a client maps to, when it is a
/// function of the identifier alone; a fully anonymous client draws a random
/// key instead.
pub open spec fn key_spec(c: &ClientIdentifier) -> Option<Seq<char>> {
    match (&c.ip, &c.client_id) {
        (Some(ip), Some(cid)) => Some(ip@ + seq![':'] + cid@),
        (Some(ip), None) => Some(prefix_ip() + ip@),
        (None, Some(cid)) => Some(prefix_client() + cid@),
        (None, None) => match &c.user_agent {
            Some(ua) => Some(prefix_ua() + hex_of(sha256_of(ua@), 0).take(16)),
            None => None,
        },
    }
}

impl ClientIdentifier {
    /// An identifier with nothing known about the client.
    pub fn new() -> (r: ClientIdentifier)
        ensures
            r.ip is None,
            r.client_id is None,
            r.user_agent is None,
    {
        ClientIdentifier { ip: None, client_id: None, user_agent: None }
    }

    pub fn with_ip(self, ip: String) -> (r: ClientIdentifier)
        ensures
            r.ip matches Some(v) && v@ == ip@,
            r.client_id == self.client_id,
            r.user_agent == self.user_agent,
    {
        ClientIdentifier { ip: Some(ip), ..self }
    }

    pub fn with_client_id(self, client_id: String) -> (r: ClientIdentifier)
        ensures
            r.client_id matches Some(v) && v@ == client_id@,
            r.ip == self.ip,
            r.user_agent == self.user_agent,
    {
        ClientIdentifier { client_id: Some(client_id), ..self }
    }

    pub fn with_user_agent(self, user_agent: String) -> (r: ClientIdentifier)
        ensures
            r.user_agent matches Some(v) && v@ == user_agent@,
            r.ip == self.ip,
            r.client_id == self.client_id,
    {
        ClientIdentifier { user_agent: Some(user_agent), ..self }
    }

    /// The partition key: IP and client id where known, a digest of the user
    /// agent otherwise, and a fresh random key for a fully anonymous client.
    #[verifier::loop_isolation(false)]
    pub fn key(&self) -> (r: String)
        ensures
            match key_spec(self) {
                Some(ks) => r@ == ks,
                None => r@.len() == 46 && r@.subrange(0, 10) == prefix_anonymous(),
            },
    {
        match (&self.ip, &self.client_id) {
            (Some(ip), Some(cid)) => {
                let mut v = str_chars(ip.as_str());
                v.push(':');
                let mut c2 = str_chars(cid.as_str());
                v.append(&mut c2);
                proof {
                    assert(v@ =~= ip@ + seq![':'] + cid@);
                }
                chars_to_string(&v)
            },
            (Some(ip), None) => {
                let mut v: Vec<char> = vec!['i', 'p', ':'];
                let mut c2 = str_chars(ip.as_str());
                v.append(&mut c2);
                proof {
                    assert(v@ =~= prefix_ip() + ip@);
                }
                chars_to_string(&v)
            },
            (None, Some(cid)) => {
                let mut v: Vec<char> = vec!['c', 'l', 'i', 'e', 'n', 't', ':'];
                let mut c2 = str_chars(cid.as_str());
                v.append(&mut c2);
                proof {
                    assert(v@ =~= prefix_client() + cid@);
                }
                chars_to_string(&v)
            },
            (None, None) => match &self.user_agent {
                Some(ua) => {
                    let d = sha256_digest(ua.as_str());
                    let h = hex_chars(&d);
                    let mut v: Vec<char> = vec!['u', 'a', ':'];
                    let mut i: usize = 0;
                    while i < 16
                        invariant
                            0 <= i <= 16,
                            h@.len() == 64,
                            v@ == prefix_ua() + h@.take(i as int),
                        decreases 16 - i,
                    {
                        v.push(h[i]);
                        proof {
                            assert(v@ =~= prefix_ua() + h@.take(i + 1 as int));
                        }
                        i = i + 1;
                    }
                    proof {
                        assert(v@ == prefix_ua() + hex_of(sha256_of(ua@), 0).take(16));
                    }
                    chars_to_string(&v)
                },
                None => {
                    let u = new_uuid_string();
                    let mut v: Vec<char> = vec![
                        'a',
                        'n',
                        'o',
                        'n',
                        'y',
                        'm',
                        'o',
                        'u',
                        's',
                        ':',
                    ];
                    let mut c2 = str_chars(u.as_str());
                    v.append(&mut c2);
                    let r = chars_to_string(&v);
                    proof {
                        assert(r@.len() == 46);
                        assert(r@.subrange(0, 10) =~= prefix_anonymous());
                    }
                    r
                },
            },
        }
    }
}

/// First position whose key reads `k`, from `i` on, or -1.
pub open spec fn key_idx_from<T>(s: Seq<(String, T)>, k: Seq<char>, i: int) -> int
    decreases s.len() - i when 0 <= i <= s.len()
{
    if i >= s.len() {
        -1
    } else if s[i].0@ == k {
        i
    } else {
        key_idx_from(s, k, i + 1)
    }
}

/// First position whose key reads `k`, or -1.
pub open spec fn key_idx<T>(s: Seq<(String, T)>, k: Seq<char>) -> int {
    key_idx_from(s, k, 0)
}

pub open spec fn has_key<T>(s: Seq<(String, T)>, k: Seq<char>) -> bool {
    key_idx(s, k) >= 0
}

/// What `key_idx_from` finds is in range, reads `k`, and is the first.
pub proof fn lemma_key_idx_from_props<T>(s: Seq<(String, T)>, k: Seq<char>, i: int)
    requires
        0 <= i <= s.len(),
    ensures
        key_idx_from(s, k, i) == -1 || i <= key_idx_from(s, k, i) < s.len(),
        key_idx_from(s, k, i) == -1 ==> (forall|j: int| i <= j < s.len() ==> s[j].0@ != k),
        key_idx_from(s, k, i) >= 0 ==> i <= key_idx_from(s, k, i) < s.len() && s[key_idx_from(
            s,
            k,
            i,
        )].0@ == k,
    decreases s.len() - i,
{
    if i < s.len() {
        lemma_key_idx_from_props(s, k, i + 1);
    }
}

/// Finds the entry for a key.
#[verifier::loop_isolation(false)]
pub fn find_key<T>(v: &Vec<(String, T)>, k: &str) -> (r: Option<usize>)
    ensures
        match r {
            Some(i) => key_idx(v@, k@) == i as int && i < v@.len() && v@[i as int].0@ == k@,
            None => key_idx(v@, k@) == -1,
        },
{
    let mut i: usize = 0;
    while i < v.len()
        invariant
            0 <= i <= v@.len(),
            key_idx(v@, k@) == key_idx_from(v@, k@, i as int),
        decreases v@.len() - i,
    {
        let pair = &v[i];
        if str_eq(pair.0.as_str(), k) {
            return Some(i);
        }
        i = i + 1;
    }
    None
}

/// Holds governor's direct rate limiter: a token bucket refilled at the
/// configured rate against the real clock.  The limiter's type cannot be
/// declared to the verifier (its generics carry associated-type bounds), so
/// the whole holder is opaque.
#[verifier::external_body]
pub struct GlobalLimiter {
    inner: governor::RateLimiter<
        governor::state::NotKeyed,
        governor::state::InMemoryState,
        governor::clock::DefaultClock,
    >,
}

impl GlobalLimiter {
    /// Relies on governor::RateLimiter::direct with Quota::per_second.
    #[verifier::external_body]
    fn new(rps: u32) -> (r: GlobalLimiter)
        requires
            rps >= 1,
    {
        GlobalLimiter {
            inner: governor::RateLimiter::direct(
                governor::Quota::per_second(std::num::NonZeroU32::new(rps).unwrap()),
            ),
        }
    }

    /// Relies on governor's check: whether the bucket admits one cell now.
    /// The outcome depends on the real clock, so nothing is assumed of it.
    #[verifier::external_body]
    fn try_check(&self) -> bool {
        self.inner.check().is_ok()
    }
}

#[verifier::external_type_specification]
#[verifier::external_body]
pub struct ExLeakyBucket(leaky_bucket::RateLimiter);

/// Relies on leaky_bucket's builder: a bucket holding at most `max` tokens,
/// starting full and refilled by one token per minute.
#[verifier::external_body]
fn new_tool_bucket(max: usize) -> leaky_bucket::RateLimiter {
    leaky_bucket::RateLimiter::builder()
        .max(max)
        .initial(max)
        .refill(1)
        .interval(std::time::Duration::from_secs(60))
        .build()
}

/// Relies on leaky_bucket's try_acquire: takes one token when one is
/// available now.  The outcome depends on the real clock, so nothing is
/// assumed of it.
#[verifier::external_body]
fn try_acquire_one(l: &leaky_bucket::RateLimiter) -> bool {
    l.try_acquire(1)
}

/// The leaky buckets guarding the limited tool categories.
pub struct ToolLimiters {
    pub deepseek_query: leaky_bucket::RateLimiter,
    pub file_analysis: leaky_bucket::RateLimiter,
}

/// The tool category a request falls under.
#[derive(Clone, Copy, PartialEq, Eq, Structural)]
pub enum ToolCategory {
    DeepseekQuery,
    FileAnalysis,
    Exempt,
    General,
    NoTool,
}

/// The category of a named tool: queries and file analysis are bucketed,
/// health checking is exempt, everything else is general.
pub open spec fn spec_tool_category(t: Option<String>) -> ToolCategory {
    match t {
        None => ToolCategory::NoTool,
        Some(s) => if s@ == "enhanced_query_deepseek"@ || s@ == "query_deepseek"@ {
            ToolCategory::DeepseekQuery
        } else if s@ == "analyze_files"@ || s@ == "youtu_agent_analyze_files"@ {
            ToolCategory::FileAnalysis
        } else if s@ == "check_deepseek_status"@ || s@ == "health"@ {
            ToolCategory::Exempt
        } else {
            ToolCategory::General
        },
    }
}

/// Decides the category of a request's tool.
pub fn categorize_tool(t: &Option<String>) -> (r: ToolCategory)
    ensures
        r == spec_tool_category(*t),
{
    match t {
        None => ToolCategory::NoTool,
        Some(s) => {
            let st = s.as_str();
            if str_eq(st, "enhanced_query_deepseek") || str_eq(st, "query_deepseek") {
                ToolCategory::DeepseekQuery
            } else if str_eq(st, "analyze_files") || str_eq(st, "youtu_agent_analyze_files") {
                ToolCategory::FileAnalysis
            } else if str_eq(st, "check_deepseek_status") || str_eq(st, "health") {
                ToolCategory::Exempt
            } else {
                ToolCategory::General
            }
        },
    }
}

/// The client's window entry, where one exists.
pub open spec fn opt_entry(L: Seq<(String, RateLimitEntry)>, k: Seq<char>) -> Option<
    RateLimitEntry,
> {
    if has_key(L, k) {
        Some(L[key_idx(L, k)].1)
    } else {
        None
    }
}

/// Number of requests still counted in the client's sliding window.
pub open spec fn fresh_at(L: Seq<(String, RateLimitEntry)>, k: Seq<char>, now: u64) -> int {
    match opt_entry(L, k) {
        Some(e) => win_from(e.requests@, 0, now, CLIENT_WINDOW_MS).len() as int,
        None => 0,
    }
}

/// Whether the client's window shows a rapid burst: more than
/// `RAPID_BURST_LIMIT` still-counted admissions within the burst window.
pub open spec fn rapid_at(L: Seq<(String, RateLimitEntry)>, k: Seq<char>, now: u64) -> bool {
    match opt_entry(L, k) {
        Some(e) => win_from(
            win_from(e.requests@, 0, now, CLIENT_WINDOW_MS),
            0,
            now,
            BURST_WINDOW_MS,
        ).len() > RAPID_BURST_LIMIT,
        None => false,
    }
}

/// The client's tracker, or a fresh one first seen now.
pub open spec fn tracker_at(
    T: Seq<(String, SuspiciousActivityTracker)>,
    k: Seq<char>,
    now: u64,
) -> SuspiciousActivityTracker {
    if has_key(T, k) {
        T[key_idx(T, k)].1
    } else {
        SuspiciousActivityTracker {
            rapid_requests_count: 0u32,
            failed_attempts: 0u32,
            large_requests_count: 0u32,
            unusual_patterns: 0u32,
            first_seen: now,
            last_seen_ms: now,
            risk_score: 0u32,
        }
    }
}

/// The tracker after one evaluation: the burst and size accumulators are
/// bumped where triggered, the last-seen time is noted, and the risk score
/// is recomputed.
pub open spec fn updated_tracker(
    t0: SuspiciousActivityTracker,
    rapid: bool,
    large: bool,
    now: u64,
) -> SuspiciousActivityTracker {
    let t1 = if rapid {
        SuspiciousActivityTracker {
            rapid_requests_count: sat_inc_u32(t0.rapid_requests_count as int),
            ..t0
        }
    } else {
        t0
    };
    let t2 = if large {
        SuspiciousActivityTracker {
            large_requests_count: sat_inc_u32(t1.large_requests_count as int),
            ..t1
        }
    } else {
        t1
    };
    SuspiciousActivityTracker { last_seen_ms: now, risk_score: risk_spec(t2, now), ..t2 }
}

/// The admission decision, as a function of the configuration, the two
/// bucket outcomes, the tool category, and the client's window and tracker.
/// Checks run in order: global bucket, per-client window, tool bucket,
/// anomaly score; the first denial wins.
pub open spec fn decide_admission(
    cfg: RateLimitConfig,
    global_ok: bool,
    tool_ok: bool,
    cat: ToolCategory,
    fresh: int,
    rapid: bool,
    t0: SuspiciousActivityTracker,
    now: u64,
    size: usize,
) -> RateLimitDecision {
    if !global_ok {
        RateLimitDecision::RateLimited {
            retry_after_seconds: 1,
            limit_type: LimitType::Global,
            current_count: sat_inc_u32(cfg.global_requests_per_second as int),
            limit: cfg.global_requests_per_second,
        }
    } else if fresh >= cfg.per_client_requests_per_minute as int {
        RateLimitDecision::RateLimited {
            retry_after_seconds: 60,
            limit_type: LimitType::PerClient,
            current_count: clamp_u32(fresh),
            limit: cfg.per_client_requests_per_minute,
        }
    } else if cat == ToolCategory::DeepseekQuery && !tool_ok {
        RateLimitDecision::RateLimited {
            retry_after_seconds: 60,
            limit_type: LimitType::ToolDeepseekQuery,
            current_count: sat_inc_u32(cfg.tool_specific_limits.deepseek_query_per_minute as int),
            limit: cfg.tool_specific_limits.deepseek_query_per_minute,
        }
    } else if cat == ToolCategory::FileAnalysis && !tool_ok {
        RateLimitDecision::RateLimited {
            retry_after_seconds: 60,
            limit_type: LimitType::ToolFileAnalysis,
            current_count: sat_inc_u32(cfg.tool_specific_limits.file_analysis_per_minute as int),
            limit: cfg.tool_specific_limits.file_analysis_per_minute,
        }
    } else {
        let t1 = updated_tracker(t0, rapid, size > LARGE_REQUEST_BYTES, now);
        if t1.risk_score > RISK_DENY_THRESHOLD {
            RateLimitDecision::RateLimited {
                retry_after_seconds: ANOMALY_RETRY_SECS,
                limit_type: LimitType::SuspiciousActivity,
                current_count: t1.risk_score,
                limit: RISK_DENY_THRESHOLD,
            }
        } else {
            RateLimitDecision::Allowed
        }
    }
}

/// How the client's window entry changes under a decision: a denial by the
/// window records the block, an admission appends the timestamp, and every
/// path prunes stale timestamps.
pub open spec fn entry_after(
    e2: RateLimitEntry,
    opt: Option<RateLimitEntry>,
    now: u64,
    d: RateLimitDecision,
) -> bool {
    let base_req = match opt {
        Some(e) => win_from(e.requests@, 0, now, CLIENT_WINDOW_MS),
        None => Seq::<u64>::empty(),
    };
    let bt = match opt {
        Some(e) => e.total_requests,
        None => 0u64,
    };
    let bb = match opt {
        Some(e) => e.blocked_requests,
        None => 0u64,
    };
    let bl = match opt {
        Some(e) => e.last_request,
        None => now,
    };
    match d {
        RateLimitDecision::Allowed => {
            &&& e2.requests@ == base_req.push(now)
            &&& e2.total_requests == sat_add_u64(bt as int)
            &&& e2.blocked_requests == bb
            &&& e2.last_request == now
        },
        RateLimitDecision::RateLimited { limit_type, .. } => {
            &&& e2.requests@ == base_req
            &&& e2.total_requests == bt
            &&& e2.last_request == bl
            &&& e2.blocked_requests == if limit_type == LimitType::PerClient {
                sat_add_u64(bb as int)
            } else {
                bb
            }
        },
    }
}

/// How the map of client windows changes under a decision: untouched on a
/// global denial, otherwise exactly the client's entry is replaced (or
/// appended when the client is new) per `entry_after`.
pub open spec fn limits_after(
    L: Seq<(String, RateLimitEntry)>,
    L2: Seq<(String, RateLimitEntry)>,
    k: Seq<char>,
    now: u64,
    d: RateLimitDecision,
) -> bool {
    if d matches RateLimitDecision::RateLimited { limit_type: LimitType::Global, .. } {
        L2 == L
    } else {
        let idx = if has_key(L, k) {
            key_idx(L, k)
        } else {
            L.len() as int
        };
        &&& L2.len() == if has_key(L, k) {
            L.len()
        } else {
            L.len() + 1
        }
        &&& (forall|j: int| 0 <= j < L.len() && j != idx ==> L2[j] == L[j])
        &&& 0 <= idx < L2.len()
        &&& L2[idx].0@ == k
        &&& entry_after(L2[idx].1, opt_entry(L, k), now, d)
    }
}

/// How the map of trackers changes under a decision: untouched unless the
/// anomaly layer was reached, in which case exactly the client's tracker is
/// replaced (or appended) by its updated form.
pub open spec fn trackers_after(
    T: Seq<(String, SuspiciousActivityTracker)>,
    T2: Seq<(String, SuspiciousActivityTracker)>,
    k: Seq<char>,
    now: u64,
    size: usize,
    rapid: bool,
    d: RateLimitDecision,
) -> bool {
    let reached = match d {
        RateLimitDecision::Allowed => true,
        RateLimitDecision::RateLimited { limit_type, .. } => limit_type
            == LimitType::SuspiciousActivity,
    };
    if !reached {
        T2 == T
    } else {
        let idx = if has_key(T, k) {
            key_idx(T, k)
        } else {
            T.len() as int
        };
        &&& T2.len() == if has_key(T, k) {
            T.len()
        } else {
            T.len() + 1
        }
        &&& (forall|j: int| 0 <= j < T.len() && j != idx ==> T2[j] == T[j])
        &&& 0 <= idx < T2.len()
        &&& T2[idx].0@ == k
        &&& T2[idx].1 == updated_tracker(tracker_at(T, k, now), rapid, size > LARGE_REQUEST_BYTES, now)
    }
}

/// Multi-layer rate limiter with different strategies.
pub struct SecurityRateLimiter {
    pub config: RateLimitConfig,
    pub global_limiter: GlobalLimiter,
    pub client_limits: Vec<(String, RateLimitEntry)>,
    pub tool_limiters: ToolLimiters,
    pub suspicious_clients: Vec<(String, SuspiciousActivityTracker)>,
}

impl SecurityRateLimiter {
    /// The per-client windows the limiter holds.
    pub open spec fn limits(&self) -> Seq<(String, RateLimitEntry)> {
        self.client_limits@
    }

    /// The anomaly trackers the limiter holds.
    pub open spec fn trackers(&self) -> Seq<(String, SuspiciousActivityTracker)> {
        self.suspicious_clients@
    }

    /// One check against the limiter's state and the given bucket outcomes:
    /// the decision and the state change are exactly those of
    /// `decide_admission`, `limits_after` and `trackers_after`.
    pub open spec fn admission_post(
        pre: SecurityRateLimiter,
        post: SecurityRateLimiter,
        global_ok: bool,
        tool_ok: bool,
        k: Seq<char>,
        cat: ToolCategory,
        now: u64,
        size: usize,
        r: RateLimitDecision,
    ) -> bool {
        let fresh = fresh_at(pre.limits(), k, now);
        let rapid = rapid_at(pre.limits(), k, now);
        let t0 = tracker_at(pre.trackers(), k, now);
        let d = decide_admission(
            pre.config,
            global_ok,
            tool_ok,
            cat,
            fresh,
            rapid,
            t0,
            now,
            size,
        );
        &&& r == d
        &&& post.config == pre.config
        &&& limits_after(pre.limits(), post.limits(), k, now, d)
        &&& trackers_after(pre.trackers(), post.trackers(), k, now, size, rapid, d)
    }

    /// Builds the limiter; refused when the global rate is zero.
    pub fn new(config: RateLimitConfig) -> (r: Result<SecurityRateLimiter, ConfigError>)
        ensures
            r is Ok <==> config.global_requests_per_second >= 1,
            r matches Ok(l) ==> l.config == config && l.limits() =~= Seq::<(
                String,
                RateLimitEntry,
            )>::empty() && l.trackers() =~= Seq::<(String, SuspiciousActivityTracker)>::empty(),
            r is Err ==> r == Result::<SecurityRateLimiter, ConfigError>::Err(
                ConfigError::ZeroGlobalRate,
            ),
    {
        if config.global_requests_per_second == 0 {
            return Err(ConfigError::ZeroGlobalRate);
        }
        let dq = config.tool_specific_limits.deepseek_query_per_minute;
        let fa = config.tool_specific_limits.file_analysis_per_minute;
        let global_limiter = GlobalLimiter::new(config.global_requests_per_second);
        Ok(
            SecurityRateLimiter {
                config,
                global_limiter,
                client_limits: Vec::new(),
                tool_limiters: ToolLimiters {
                    deepseek_query: new_tool_bucket(dq as usize),
                    file_analysis: new_tool_bucket(fa as usize),
                },
                suspicious_clients: Vec::new(),
            },
        )
    }

    /// Clamps a count into `u32`.
    fn clamp_count(c: usize) -> (r: u32)
        ensures
            r == clamp_u32(c as int),
    {
        if c > u32::MAX as usize {
            u32::MAX
        } else {
            c as u32
        }
    }

    /// Runs one admission check for the given client key and the observed
    /// global-bucket outcome.  The decision and the state change follow
    /// `decide_admission` exactly, for some outcome of the tool bucket; when
    /// the request names no bucketed tool, the tool outcome is irrelevant and
    /// the contract is exact.
    #[verifier::loop_isolation(false)]
    pub fn check_admission_with(
        &mut self,
        global_ok: bool,
        client_key: &str,
        request: &RequestContext,
    ) -> (r: RateLimitDecision)
        ensures
            exists|tool_ok: bool|
                SecurityRateLimiter::admission_post(
                    *old(self),
                    *final(self),
                    global_ok,
                    tool_ok,
                    client_key@,
                    spec_tool_category(request.tool_name),
                    request.timestamp_ms,
                    request.request_size,
                    r,
                ),
            (spec_tool_category(request.tool_name) == ToolCategory::NoTool
                || spec_tool_category(request.tool_name) == ToolCategory::Exempt
                || spec_tool_category(request.tool_name) == ToolCategory::General)
                ==> SecurityRateLimiter::admission_post(
                *old(self),
                *final(self),
                global_ok,
                true,
                client_key@,
                spec_tool_category(request.tool_name),
                request.timestamp_ms,
                request.request_size,
                r,
            ),
    {
        let ghost pre = *self;
        let ghost k = client_key@;
        let ghost cat_g = spec_tool_category(request.tool_name);
        let now = request.timestamp_ms;
        let size = request.request_size;
        let rps = self.config.global_requests_per_second;
        let limit = self.config.per_client_requests_per_minute;
        if !global_ok {
            let d = RateLimitDecision::RateLimited {
                retry_after_seconds: 1,
                limit_type: LimitType::Global,
                current_count: rps.saturating_add(1),
                limit: rps,
            };
            proof {
                assert(SecurityRateLimiter::admission_post(
                    pre,
                    *self,
                    global_ok,
                    true,
                    k,
                    cat_g,
                    now,
                    size,
                    d,
                ));
            }
            return d;
        }
        proof {
            lemma_key_idx_from_props(self.client_limits@, k, 0);
        }
        let idx: usize = match find_key(&self.client_limits, client_key) {
            Some(i) => i,
            None => {
                let i = self.client_limits.len();
                self.client_limits.push((String::from_str(client_key), RateLimitEntry::new(now)));
                i
            },
        };
        let ghost had = has_key(pre.limits(), k);
        let base_last = self.client_limits[idx].1.last_request;
        let base_total = self.client_limits[idx].1.total_requests;
        let base_blocked = self.client_limits[idx].1.blocked_requests;
        let kept = filter_window(&self.client_limits[idx].1.requests, now, CLIENT_WINDOW_MS);
        proof {
            if !had {
                assert(self.client_limits@[idx as int].1.requests@ =~= Seq::<u64>::empty());
                assert(kept@ =~= Seq::<u64>::empty());
            }
            assert(kept@.len() == fresh_at(pre.limits(), k, now));
        }
        let fresh = kept.len();
        if fresh >= limit as usize {
            let e2 = RateLimitEntry {
                requests: kept,
                last_request: base_last,
                total_requests: base_total,
                blocked_requests: base_blocked.saturating_add(1),
            };
            self.client_limits[idx] = (String::from_str(client_key), e2);
            let d = RateLimitDecision::RateLimited {
                retry_after_seconds: 60,
                limit_type: LimitType::PerClient,
                current_count: SecurityRateLimiter::clamp_count(fresh),
                limit,
            };
            proof {
                assert(entry_after(
                    self.client_limits@[idx as int].1,
                    opt_entry(pre.limits(), k),
                    now,
                    d,
                ));
                assert(SecurityRateLimiter::admission_post(
                    pre,
                    *self,
                    global_ok,
                    true,
                    k,
                    cat_g,
                    now,
                    size,
                    d,
                ));
            }
            return d;
        }
        let cat = categorize_tool(&request.tool_name);
        if cat == ToolCategory::DeepseekQuery || cat == ToolCategory::FileAnalysis {
            let acquired = if cat == ToolCategory::DeepseekQuery {
                try_acquire_one(&self.tool_limiters.deepseek_query)
            } else {
                try_acquire_one(&self.tool_limiters.file_analysis)
            };
            if !acquired {
                let e2 = RateLimitEntry {
                    requests: kept,
                    last_request: base_last,
                    total_requests: base_total,
                    blocked_requests: base_blocked,
                };
                self.client_limits[idx] = (String::from_str(client_key), e2);
                let tl = if cat == ToolCategory::DeepseekQuery {
                    self.config.tool_specific_limits.deepseek_query_per_minute
                } else {
                    self.config.tool_specific_limits.file_analysis_per_minute
                };
                let d = RateLimitDecision::RateLimited {
                    retry_after_seconds: 60,
                    limit_type: if cat == ToolCategory::DeepseekQuery {
                        LimitType::ToolDeepseekQuery
                    } else {
                        LimitType::ToolFileAnalysis
                    },
                    current_count: tl.saturating_add(1),
                    limit: tl,
                };
                proof {
                    assert(entry_after(
                        self.client_limits@[idx as int].1,
                        opt_entry(pre.limits(), k),
                        now,
                        d,
                    ));
                    assert(SecurityRateLimiter::admission_post(
                        pre,
                        *self,
                        global_ok,
                        false,
                        k,
                        cat_g,
                        now,
                        size,
                        d,
                    ));
                }
                return d;
            }
        }
        let burst = count_window(&kept, now, BURST_WINDOW_MS);
        proof {
            assert((burst > RAPID_BURST_LIMIT) == rapid_at(pre.limits(), k, now));
            lemma_key_idx_from_props(self.suspicious_clients@, k, 0);
        }
        let tidx: usize = match find_key(&self.suspicious_clients, client_key) {
            Some(i) => i,
            None => {
                let i = self.suspicious_clients.len();
                self.suspicious_clients.push(
                    (String::from_str(client_key), SuspiciousActivityTracker::new(now)),
                );
                i
            },
        };
        proof {
            assert(self.suspicious_clients@[tidx as int].1 == tracker_at(pre.trackers(), k, now));
        }
        let mut t2 = self.suspicious_clients[tidx].1;
        if burst > RAPID_BURST_LIMIT {
            t2.rapid_requests_count = t2.rapid_requests_count.saturating_add(1);
        }
        if size > LARGE_REQUEST_BYTES {
            t2.large_requests_count = t2.large_requests_count.saturating_add(1);
        }
        t2.last_seen_ms = now;
        let risk = t2.calculate_risk_score(now);
        self.suspicious_clients[tidx] = (String::from_str(client_key), t2);
        proof {
            assert(t2 == updated_tracker(
                tracker_at(pre.trackers(), k, now),
                rapid_at(pre.limits(), k, now),
                size > LARGE_REQUEST_BYTES,
                now,
            ));
        }
        if risk > RISK_DENY_THRESHOLD {
            let e2 = RateLimitEntry {
                requests: kept,
                last_request: base_last,
                total_requests: base_total,
                blocked_requests: base_blocked,
            };
            self.client_limits[idx] = (String::from_str(client_key), e2);
            let d = RateLimitDecision::RateLimited {
                retry_after_seconds: ANOMALY_RETRY_SECS,
                limit_type: LimitType::SuspiciousActivity,
                current_count: risk,
                limit: RISK_DENY_THRESHOLD,
            };
            proof {
                assert(entry_after(
                    self.client_limits@[idx as int].1,
                    opt_entry(pre.limits(), k),
                    now,
                    d,
                ));
                assert(trackers_after(
                    pre.trackers(),
                    self.suspicious_clients@,
                    k,
                    now,
                    size,
                    rapid_at(pre.limits(), k, now),
                    d,
                ));
                assert(SecurityRateLimiter::admission_post(
                    pre,
                    *self,
                    global_ok,
                    true,
                    k,
                    cat_g,
                    now,
                    size,
                    d,
                ));
            }
            return d;
        }
        let mut kept2 = kept;
        kept2.push(now);
        let e2 = RateLimitEntry {
            requests: kept2,
            last_request: now,
            total_requests: base_total.saturating_add(1),
            blocked_requests: base_blocked,
        };
        self.client_limits[idx] = (String::from_str(client_key), e2);
        proof {
            assert(entry_after(
                self.client_limits@[idx as int].1,
                opt_entry(pre.limits(), k),
                now,
                RateLimitDecision::Allowed,
            ));
            assert(trackers_after(
                pre.trackers(),
                self.suspicious_clients@,
                k,
                now,
                size,
                rapid_at(pre.limits(), k, now),
                RateLimitDecision::Allowed,
            ));
            assert(SecurityRateLimiter::admission_post(
                pre,
                *self,
                global_ok,
                true,
                k,
                cat_g,
                now,
                size,
                RateLimitDecision::Allowed,
            ));
        }
        RateLimitDecision::Allowed
    }

    /// Checks a request against every admission layer.  With limiting
    /// disabled the request passes untouched; otherwise the decision follows
    /// `decide_admission` for the client's key and the observed bucket
    /// outcomes.
    pub fn check_rate_limit(&mut self, request: &RequestContext) -> (r: RateLimitDecision)
        ensures
            !old(self).config.enabled ==> r == RateLimitDecision::Allowed && *final(self) == *old(
                self,
            ),
            old(self).config.enabled ==> exists|gok: bool, tok: bool, kk: Seq<char>|
                SecurityRateLimiter::admission_post(
                    *old(self),
                    *final(self),
                    gok,
                    tok,
                    kk,
                    spec_tool_category(request.tool_name),
                    request.timestamp_ms,
                    request.request_size,
                    r,
                ) && (key_spec(&request.client) matches Some(k0) ==> kk == k0),
    {
        if !self.config.enabled {
            return RateLimitDecision::Allowed;
        }
        let gok = self.global_limiter.try_check();
        let key = request.client.key();
        let r = self.check_admission_with(gok, key.as_str(), request);
        proof {
            let tok = choose|tool_ok: bool|
                SecurityRateLimiter::admission_post(
                    *old(self),
                    *final(self),
                    gok,
                    tool_ok,
                    key@,
                    spec_tool_category(request.tool_name),
                    request.timestamp_ms,
                    request.request_size,
                    r,
                );
        }
        r
    }
}


/// Aggregate counters over the limiter's clients, with the active
/// configuration.
pub struct RateLimiterStatistics {
    pub total_clients: usize,
    pub suspicious_clients: usize,
    pub total_requests: u64,
    pub total_blocked: u64,
    pub enabled: bool,
    pub global_rps: u32,
    pub per_client_rpm: u32,
    pub deepseek_rpm: u32,
    pub file_analysis_rpm: u32,
}

/// Sum of the totals of all windows from `i` on.
pub open spec fn sum_total(L: Seq<(String, RateLimitEntry)>, i: int) -> int
    decreases L.len() - i when 0 <= i <= L.len()
{
    if i >= L.len() {
        0
    } else {
        L[i].1.total_requests + sum_total(L, i + 1)
    }
}

/// Sum of the blocked counts of all windows from `i` on.
pub open spec fn sum_blocked(L: Seq<(String, RateLimitEntry)>, i: int) -> int
    decreases L.len() - i when 0 <= i <= L.len()
{
    if i >= L.len() {
        0
    } else {
        L[i].1.blocked_requests + sum_blocked(L, i + 1)
    }
}

/// `x` held within `u64`.
pub open spec fn clamp_u64(x: int) -> u64 {
    if x > u64::MAX as int {
        u64::MAX
    } else if x < 0 {
        0u64
    } else {
        x as u64
    }
}

proof fn lemma_sum_total_nonneg(L: Seq<(String, RateLimitEntry)>, i: int)
    requires
        0 <= i <= L.len(),
    ensures
        sum_total(L, i) >= 0,
        sum_blocked(L, i) >= 0,
    decreases L.len() - i,
{
    if i < L.len() {
        lemma_sum_total_nonneg(L, i + 1);
    }
}

proof fn lemma_sum_prefix(L: Seq<(String, RateLimitEntry)>, i: int)
    requires
        0 <= i <= L.len(),
    ensures
        sum_total(L, 0) >= sum_total(L, i),
        sum_blocked(L, 0) >= sum_blocked(L, i),
    decreases i,
{
    if i > 0 {
        lemma_sum_prefix(L, i - 1);
        lemma_sum_total_nonneg(L, i);
    }
}

/// Entries still active at `now`: the last request is younger than the
/// staleness bound.
pub open spec fn live_entries(L: Seq<(String, RateLimitEntry)>, now: u64) -> Seq<
    (String, RateLimitEntry),
>
    decreases L.len(),
{
    if L.len() == 0 {
        Seq::empty()
    } else if L[0].1.last_request + STALE_ENTRY_MS > now {
        seq![L[0]] + live_entries(L.drop_first(), now)
    } else {
        live_entries(L.drop_first(), now)
    }
}

/// Trackers still active at `now`: last seen within the staleness bound.
pub open spec fn live_trackers(T: Seq<(String, SuspiciousActivityTracker)>, now: u64) -> Seq<
    (String, SuspiciousActivityTracker),
>
    decreases T.len(),
{
    if T.len() == 0 {
        Seq::empty()
    } else if T[0].1.last_seen_ms + STALE_ENTRY_MS > now {
        seq![T[0]] + live_trackers(T.drop_first(), now)
    } else {
        live_trackers(T.drop_first(), now)
    }
}

impl SecurityRateLimiter {
    /// Aggregate counts of clients tracked, requests seen and requests
    /// blocked, with the active configuration.
    #[verifier::loop_isolation(false)]
    pub fn get_statistics(&self) -> (r: RateLimiterStatistics)
        ensures
            r.total_clients == self.limits().len(),
            r.suspicious_clients == self.trackers().len(),
            r.total_requests == clamp_u64(sum_total(self.limits(), 0)),
            r.total_blocked == clamp_u64(sum_blocked(self.limits(), 0)),
            r.enabled == self.config.enabled,
            r.global_rps == self.config.global_requests_per_second,
            r.per_client_rpm == self.config.per_client_requests_per_minute,
            r.deepseek_rpm == self.config.tool_specific_limits.deepseek_query_per_minute,
            r.file_analysis_rpm == self.config.tool_specific_limits.file_analysis_per_minute,
    {
        let mut total: u64 = 0;
        let mut blocked: u64 = 0;
        let mut i: usize = 0;
        proof {
            lemma_sum_total_nonneg(self.client_limits@, 0);
        }
        while i < self.client_limits.len()
            invariant
                0 <= i <= self.client_limits@.len(),
                total == clamp_u64(sum_total(self.client_limits@, 0) - sum_total(
                    self.client_limits@,
                    i as int,
                )),
                blocked == clamp_u64(sum_blocked(self.client_limits@, 0) - sum_blocked(
                    self.client_limits@,
                    i as int,
                )),
            decreases self.client_limits@.len() - i,
        {
            proof {
                lemma_sum_total_nonneg(self.client_limits@, i as int);
                lemma_sum_total_nonneg(self.client_limits@, i + 1);
                lemma_sum_prefix(self.client_limits@, i as int);
                lemma_sum_prefix(self.client_limits@, i + 1);
                assert(sum_total(self.client_limits@, i as int)
                    == self.client_limits@[i as int].1.total_requests + sum_total(
                    self.client_limits@,
                    i + 1,
                ));
                assert(sum_blocked(self.client_limits@, i as int)
                    == self.client_limits@[i as int].1.blocked_requests + sum_blocked(
                    self.client_limits@,
                    i + 1,
                ));
            }
            total = total.saturating_add(self.client_limits[i].1.total_requests);
            blocked = blocked.saturating_add(self.client_limits[i].1.blocked_requests);
            i = i + 1;
        }
        proof {
            assert(sum_total(self.client_limits@, i as int) == 0);
            assert(sum_blocked(self.client_limits@, i as int) == 0);
        }
        RateLimiterStatistics {
            total_clients: self.client_limits.len(),
            suspicious_clients: self.suspicious_clients.len(),
            total_requests: total,
            total_blocked: blocked,
            enabled: self.config.enabled,
            global_rps: self.config.global_requests_per_second,
            per_client_rpm: self.config.per_client_requests_per_minute,
            deepseek_rpm: self.config.tool_specific_limits.deepseek_query_per_minute,
            file_analysis_rpm: self.config.tool_specific_limits.file_analysis_per_minute,
        }
    }

    /// Evicts clients and trackers inactive longer than the staleness bound,
    /// bounding memory under sustained unique-client churn.
    #[verifier::loop_isolation(false)]
    pub fn cleanup_old_entries(&mut self, now_ms: u64)
        ensures
            final(self).limits() == live_entries(old(self).limits(), now_ms),
            final(self).trackers() == live_trackers(old(self).trackers(), now_ms),
            final(self).config == old(self).config,
    {
        let ghost l0 = self.client_limits@;
        let mut kept: Vec<(String, RateLimitEntry)> = Vec::new();
        while self.client_limits.len() > 0
            invariant
                live_entries(l0, now_ms) == kept@ + live_entries(self.client_limits@, now_ms),
                self.config == old(self).config,
                self.suspicious_clients@ == old(self).suspicious_clients@,
            decreases self.client_limits@.len(),
        {
            let ghost cur0 = self.client_limits@;
            let ghost kept0 = kept@;
            let pair = self.client_limits.remove(0);
            let alive = pair.1.last_request > now_ms || now_ms - pair.1.last_request
                < STALE_ENTRY_MS;
            if alive {
                kept.push(pair);
            }
            proof {
                assert(self.client_limits@ =~= cur0.drop_first());
                assert((cur0[0].1.last_request + STALE_ENTRY_MS > now_ms) == alive);
                assert(kept0 + live_entries(cur0, now_ms) =~= kept@ + live_entries(
                    self.client_limits@,
                    now_ms,
                ));
            }
        }
        proof {
            assert(live_entries(self.client_limits@, now_ms) =~= Seq::<(
                String,
                RateLimitEntry,
            )>::empty());
            assert(kept@ + live_entries(self.client_limits@, now_ms) =~= kept@);
        }
        self.client_limits = kept;
        let ghost t0 = self.suspicious_clients@;
        let mut tkept: Vec<(String, SuspiciousActivityTracker)> = Vec::new();
        while self.suspicious_clients.len() > 0
            invariant
                live_trackers(t0, now_ms) == tkept@ + live_trackers(
                    self.suspicious_clients@,
                    now_ms,
                ),
                self.config == old(self).config,
                self.client_limits@ == live_entries(l0, now_ms),
            decreases self.suspicious_clients@.len(),
        {
            let ghost cur0 = self.suspicious_clients@;
            let ghost kept0 = tkept@;
            let pair = self.suspicious_clients.remove(0);
            let alive = pair.1.last_seen_ms > now_ms || now_ms - pair.1.last_seen_ms
                < STALE_ENTRY_MS;
            if alive {
                tkept.push(pair);
            }
            proof {
                assert(self.suspicious_clients@ =~= cur0.drop_first());
                assert((cur0[0].1.last_seen_ms + STALE_ENTRY_MS > now_ms) == alive);
                assert(kept0 + live_trackers(cur0, now_ms) =~= tkept@ + live_trackers(
                    self.suspicious_clients@,
                    now_ms,
                ));
            }
        }
        proof {
            assert(live_trackers(self.suspicious_clients@, now_ms) =~= Seq::<(
                String,
                SuspiciousActivityTracker,
            )>::empty());
            assert(tkept@ + live_trackers(self.suspicious_clients@, now_ms) =~= tkept@);
        }
        self.suspicious_clients = tkept;
    }

    /// Manually blocks a client for incident response: its tracker is forced
    /// to the maximum risk score.  A client with no tracker is left alone.
    pub fn block_client(&mut self, client_key: &str, duration_seconds: u64)
        ensures
            final(self).limits() == old(self).limits(),
            final(self).config == old(self).config,
            !has_key(old(self).trackers(), client_key@) ==> final(self).trackers() == old(
                self,
            ).trackers(),
            has_key(old(self).trackers(), client_key@) ==> {
                let idx = key_idx(old(self).trackers(), client_key@);
                &&& final(self).trackers().len() == old(self).trackers().len()
                &&& (forall|j: int|
                    0 <= j < old(self).trackers().len() && j != idx ==> final(self).trackers()[j]
                        == old(self).trackers()[j])
                &&& final(self).trackers()[idx].0@ == client_key@
                &&& (final(self).trackers()[idx].1 == SuspiciousActivityTracker {
                    risk_score: 100u32,
                    failed_attempts: 20u32,
                    ..old(self).trackers()[idx].1
                })
            },
    {
        proof {
            lemma_key_idx_from_props(self.suspicious_clients@, client_key@, 0);
        }
        match find_key(&self.suspicious_clients, client_key) {
            None => (),
            Some(i) => {
                let mut t = self.suspicious_clients[i].1;
                t.risk_score = 100;
                t.failed_attempts = 20;
                self.suspicious_clients[i] = (String::from_str(client_key), t);
            },
        }
    }
}


/// Whatever the decision, the client window that an admission check leaves
/// behind never counts a timestamp older than the sliding window: the age of
/// every kept timestamp is below the window width.
pub proof fn lemma_window_stays_fresh(
    e_new: RateLimitEntry,
    e_old: Option<RateLimitEntry>,
    now: u64,
    d: RateLimitDecision,
)
    requires
        entry_after(e_new, e_old, now, d),
    ensures
        forall|m: int|
            0 <= m < e_new.requests@.len() ==> now - e_new.requests@[m] < CLIENT_WINDOW_MS,
{
    let base = match e_old {
        Some(e) => win_from(e.requests@, 0, now, CLIENT_WINDOW_MS),
        None => Seq::<u64>::empty(),
    };
    match e_old {
        Some(e) => {
            lemma_win_from_fresh(e.requests@, 0, now, CLIENT_WINDOW_MS);
        },
        None => (),
    }
    if d is Allowed {
        assert forall|m: int|
            0 <= m < e_new.requests@.len() implies now - e_new.requests@[m]
            < CLIENT_WINDOW_MS by {
            if m < base.len() {
                assert(e_new.requests@[m] == base[m]);
            } else {
                assert(e_new.requests@[m] == now);
            }
        }
    }
}


/// Each oversized evaluation drives the oversize tally up by one (until the
/// counter saturates), whatever else the evaluation sees.
pub proof fn lemma_oversize_tally_grows(
    t0: SuspiciousActivityTracker,
    rapid: bool,
    now_ms: u64,
)
    ensures
        updated_tracker(t0, rapid, true, now_ms).large_requests_count == sat_inc_u32(
            t0.large_requests_count as int,
        ),
        updated_tracker(t0, rapid, true, now_ms).first_seen == t0.first_seen,
{
}

/// A client whose tracker has seen ten oversized requests is denied by the
/// anomaly layer on its next check, as long as the earlier layers pass and
/// the score has not decayed away: the oversize weight alone puts the risk
/// over the deny threshold.
pub proof fn lemma_oversized_run_denied(
    cfg: RateLimitConfig,
    t0: SuspiciousActivityTracker,
    now: u64,
    size: usize,
    fresh: int,
    rapid: bool,
    cat: ToolCategory,
)
    requires
        t0.large_requests_count >= 10,
        now < t0.first_seen + 540_000,
        fresh < cfg.per_client_requests_per_minute as int,
    ensures
        decide_admission(cfg, true, true, cat, fresh, rapid, t0, now, size) matches
            RateLimitDecision::RateLimited { limit_type: LimitType::SuspiciousActivity, .. },
{
    let t1 = updated_tracker(t0, rapid, size > LARGE_REQUEST_BYTES, now);
    assert(t1.large_requests_count >= 10);
    assert(weighted_score(t1) >= 60);
    assert(age_minutes(t1, now) <= 8);
    assert(t1.risk_score > RISK_DENY_THRESHOLD);
}

/// Below the per-client limit, with no rapid burst, a modest request size
/// and an unsuspicious tracker, the request is admitted: admitting up to the
/// per-client allowance within the window succeeds.
pub proof fn lemma_admitted_below_limit(
    cfg: RateLimitConfig,
    t0: SuspiciousActivityTracker,
    now: u64,
    size: usize,
    fresh: int,
)
    requires
        fresh < cfg.per_client_requests_per_minute as int,
        size <= LARGE_REQUEST_BYTES,
        risk_spec(t0, now) <= RISK_DENY_THRESHOLD,
    ensures
        decide_admission(cfg, true, true, ToolCategory::NoTool, fresh, false, t0, now, size)
            == RateLimitDecision::Allowed,
{
}

/// At or above the per-client limit the request is denied by the per-client
/// window, whatever the tool bucket or the tracker says: the request after
/// the allowance is turned away.
pub proof fn lemma_denied_at_limit(
    cfg: RateLimitConfig,
    t0: SuspiciousActivityTracker,
    now: u64,
    size: usize,
    fresh: int,
    rapid: bool,
    tool_ok: bool,
    cat: ToolCategory,
)
    requires
        fresh >= cfg.per_client_requests_per_minute as int,
    ensures
        decide_admission(cfg, true, tool_ok, cat, fresh, rapid, t0, now, size)
            == (RateLimitDecision::RateLimited {
            retry_after_seconds: 60u64,
            limit_type: LimitType::PerClient,
            current_count: clamp_u32(fresh),
            limit: cfg.per_client_requests_per_minute,
        }),
{
}

} // verus!
