//! The protected path to the downstream model API: TTL-keyed response
//! memoization, circuit-breaker gating and retry planning with exponential
//! backoff and jitter.
//!
//! The HTTP call itself is I/O and lives with the embedding program; this
//! module owns every decision around it.  `begin_chat` answers a cached
//! response, a fast failure while the breaker is open, or leave to attempt
//! the call; `on_attempt_failure` plans the retry; `on_attempt_success`
//! records and memoizes the result.

use crate::breaker::{
    can_execute_allow, can_execute_next, record_failure_next, record_success_next, CircuitBreaker,
};
use crate::config::{Config, ConfigError};
use crate::rate_limiter::clamp_u64;
use crate::text::str_chars;
use vstd::prelude::*;

verus! {

/// One chat message.
pub struct Message {
    pub role: String,
    pub content: String,
}

/// A downstream chat request.  The sampling temperature is carried in
/// thousandths.
pub struct DeepSeekRequest {
    pub model: String,
    pub messages: Vec<Message>,
    pub max_tokens: Option<u32>,
    pub temperature_milli: Option<u32>,
    pub stream: Option<bool>,
}

pub struct Usage {
    pub prompt_tokens: u32,
    pub completion_tokens: u32,
    pub total_tokens: u32,
}

pub struct Choice {
    pub index: u32,
    pub message: Message,
    pub finish_reason: Option<String>,
}

/// A downstream chat response.
pub struct DeepSeekResponse {
    pub id: String,
    pub object: String,
    pub created: u64,
    pub model: String,
    pub choices: Vec<Choice>,
    pub usage: Option<Usage>,
}

/// Two messages hold the same text.
pub open spec fn message_eq(a: Message, b: Message) -> bool {
    a.role@ == b.role@ && a.content@ == b.content@
}

pub open spec fn usage_eq(a: Option<Usage>, b: Option<Usage>) -> bool {
    match (a, b) {
        (None, None) => true,
        (Some(x), Some(y)) => x.prompt_tokens == y.prompt_tokens && x.completion_tokens
            == y.completion_tokens && x.total_tokens == y.total_tokens,
        _ => false,
    }
}

pub open spec fn choice_eq(a: Choice, b: Choice) -> bool {
    &&& a.index == b.index
    &&& message_eq(a.message, b.message)
    &&& match (a.finish_reason, b.finish_reason) {
        (None, None) => true,
        (Some(x), Some(y)) => x@ == y@,
        _ => false,
    }
}

/// Two responses hold the same contents.
pub open spec fn response_eq(a: DeepSeekResponse, b: DeepSeekResponse) -> bool {
    &&& a.id@ == b.id@
    &&& a.object@ == b.object@
    &&& a.created == b.created
    &&& a.model@ == b.model@
    &&& a.choices@.len() == b.choices@.len()
    &&& (forall|i: int| 0 <= i < a.choices@.len() ==> choice_eq(a.choices@[i], b.choices@[i]))
    &&& usage_eq(a.usage, b.usage)
}

fn clone_string(s: &String) -> (r: String)
    ensures
        r@ == s@,
{
    String::from_str(s.as_str())
}

fn clone_message(m: &Message) -> (r: Message)
    ensures
        message_eq(r, *m),
{
    Message { role: clone_string(&m.role), content: clone_string(&m.content) }
}

/// Rebuilds a response value equal in contents to the given one.
#[verifier::loop_isolation(false)]
fn clone_response(resp: &DeepSeekResponse) -> (r: DeepSeekResponse)
    ensures
        response_eq(r, *resp),
{
    let mut choices: Vec<Choice> = Vec::new();
    let mut i: usize = 0;
    while i < resp.choices.len()
        invariant
            0 <= i <= resp.choices@.len(),
            choices@.len() == i,
            forall|j: int| 0 <= j < i ==> choice_eq(choices@[j], resp.choices@[j]),
        decreases resp.choices@.len() - i,
    {
        let c = &resp.choices[i];
        let fr: Option<String> = match &c.finish_reason {
            Some(s) => Some(clone_string(s)),
            None => None,
        };
        choices.push(Choice { index: c.index, message: clone_message(&c.message), finish_reason: fr });
        i = i + 1;
    }
    let usage: Option<Usage> = match &resp.usage {
        Some(u) => Some(
            Usage {
                prompt_tokens: u.prompt_tokens,
                completion_tokens: u.completion_tokens,
                total_tokens: u.total_tokens,
            },
        ),
        None => None,
    };
    DeepSeekResponse {
        id: clone_string(&resp.id),
        object: clone_string(&resp.object),
        created: resp.created,
        model: clone_string(&resp.model),
        choices,
        usage,
    }
}

/// A memoized response with its creation time and lifetime, in milliseconds.
pub struct CachedResponse {
    pub response: DeepSeekResponse,
    pub created_at: u64,
    pub ttl_ms: u64,
}

/// A cached response is expired once its age exceeds its lifetime.
pub open spec fn cache_expired(c: &CachedResponse, now_ms: u64) -> bool {
    now_ms > c.created_at + c.ttl_ms
}

impl CachedResponse {
    /// Whether the entry's age exceeds its lifetime at `now`.
    pub fn is_expired(&self, now_ms: u64) -> (r: bool)
        ensures
            r == cache_expired(self, now_ms),
    {
        now_ms > self.created_at && now_ms - self.created_at > self.ttl_ms
    }
}

/// Counters over the protected call path.
#[derive(Clone, Copy)]
pub struct PerformanceMetrics {
    pub total_requests: u64,
    pub successful_requests: u64,
    pub failed_requests: u64,
    pub cache_hits: u64,
    pub cache_misses: u64,
    pub circuit_breaker_trips: u64,
}

/// One step of the 64-bit FNV-1a hash.
pub open spec fn fnv_step(h: u64, x: u64) -> u64 {
    (((h ^ x) as int * 0x100000001b3) % 0x10000000000000000) as u64
}

/// The hash folded over the characters of a string.
pub open spec fn fnv_str(h: u64, s: Seq<char>, i: int) -> u64
    decreases s.len() - i when 0 <= i <= s.len()
{
    if i >= s.len() {
        h
    } else {
        fnv_str(fnv_step(h, s[i] as u64), s, i + 1)
    }
}

/// The hash folded over a message: a separator, the role, a separator, the
/// text.
pub open spec fn fnv_message(h: u64, m: Message) -> u64 {
    fnv_str(fnv_step(fnv_str(fnv_step(h, 1), m.role@, 0), 2), m.content@, 0)
}

pub open spec fn fnv_messages(h: u64, ms: Seq<Message>, i: int) -> u64
    decreases ms.len() - i when 0 <= i <= ms.len()
{
    if i >= ms.len() {
        h
    } else {
        fnv_messages(fnv_message(h, ms[i]), ms, i + 1)
    }
}

/// Initial state of the 64-bit FNV-1a hash.
pub const FNV_OFFSET: u64 = 0xcbf29ce484222325;

/// The deterministic cache key of a request: a content hash over the model,
/// the ordered messages, the temperature and the token budget.
pub open spec fn cache_key_spec(req: DeepSeekRequest) -> u64 {
    let h0 = fnv_str(FNV_OFFSET, req.model@, 0);
    let h1 = fnv_messages(h0, req.messages@, 0);
    let h2 = match req.temperature_milli {
        Some(t) => fnv_step(h1, (t as int + 3) as u64),
        None => fnv_step(h1, 0),
    };
    match req.max_tokens {
        Some(t) => fnv_step(h2, (t as int + 4) as u64),
        None => fnv_step(h2, 0),
    }
}

fn fnv_step_x(h: u64, x: u64) -> (r: u64)
    ensures
        r == fnv_step(h, x),
{
    (h ^ x).wrapping_mul(0x100000001b3)
}

#[verifier::loop_isolation(false)]
fn fnv_str_x(h: u64, s: &str) -> (r: u64)
    ensures
        r == fnv_str(h, s@, 0),
{
    let v = str_chars(s);
    let mut acc = h;
    let mut i: usize = 0;
    while i < v.len()
        invariant
            0 <= i <= v@.len(),
            fnv_str(h, v@, 0) == fnv_str(acc, v@, i as int),
        decreases v@.len() - i,
    {
        acc = fnv_step_x(acc, v[i] as u64);
        i = i + 1;
    }
    acc
}

/// Computes the deterministic cache key of a request.
#[verifier::loop_isolation(false)]
pub fn generate_cache_key(req: &DeepSeekRequest) -> (r: u64)
    ensures
        r == cache_key_spec(*req),
{
    let mut h = fnv_str_x(FNV_OFFSET, req.model.as_str());
    let mut i: usize = 0;
    while i < req.messages.len()
        invariant
            0 <= i <= req.messages@.len(),
            fnv_messages(fnv_str(FNV_OFFSET, req.model@, 0), req.messages@, 0) == fnv_messages(
                h,
                req.messages@,
                i as int,
            ),
        decreases req.messages@.len() - i,
    {
        let m = &req.messages[i];
        h = fnv_step_x(h, 1);
        h = fnv_str_x(h, m.role.as_str());
        h = fnv_step_x(h, 2);
        h = fnv_str_x(h, m.content.as_str());
        i = i + 1;
    }
    h = match &req.temperature_milli {
        Some(t) => fnv_step_x(h, (*t as u64) + 3),
        None => fnv_step_x(h, 0),
    };
    match &req.max_tokens {
        Some(t) => fnv_step_x(h, (*t as u64) + 4),
        None => fnv_step_x(h, 0),
    }
}


/// First position holding the key, from `i` on, or -1.
pub open spec fn ckey_idx_from(s: Seq<(u64, CachedResponse)>, k: u64, i: int) -> int
    decreases s.len() - i when 0 <= i <= s.len()
{
    if i >= s.len() {
        -1
    } else if s[i].0 == k {
        i
    } else {
        ckey_idx_from(s, k, i + 1)
    }
}

pub open spec fn ckey_idx(s: Seq<(u64, CachedResponse)>, k: u64) -> int {
    ckey_idx_from(s, k, 0)
}

pub open spec fn cache_has(s: Seq<(u64, CachedResponse)>, k: u64) -> bool {
    ckey_idx(s, k) >= 0
}

proof fn lemma_ckey_idx_from_props(s: Seq<(u64, CachedResponse)>, k: u64, i: int)
    requires
        0 <= i <= s.len(),
    ensures
        ckey_idx_from(s, k, i) == -1 ==> (forall|j: int| i <= j < s.len() ==> s[j].0 != k),
        ckey_idx_from(s, k, i) >= 0 ==> i <= ckey_idx_from(s, k, i) < s.len() && s[ckey_idx_from(
            s,
            k,
            i,
        )].0 == k,
    decreases s.len() - i,
{
    if i < s.len() {
        lemma_ckey_idx_from_props(s, k, i + 1);
    }
}

#[verifier::loop_isolation(false)]
fn find_cache_key(v: &Vec<(u64, CachedResponse)>, k: u64) -> (r: Option<usize>)
    ensures
        match r {
            Some(i) => ckey_idx(v@, k) == i as int && i < v@.len() && v@[i as int].0 == k,
            None => ckey_idx(v@, k) == -1,
        },
{
    let mut i: usize = 0;
    while i < v.len()
        invariant
            0 <= i <= v@.len(),
            ckey_idx(v@, k) == ckey_idx_from(v@, k, i as int),
        decreases v@.len() - i,
    {
        if v[i].0 == k {
            return Some(i);
        }
        i = i + 1;
    }
    None
}

/// What `begin_chat` decides.
pub enum CallPlan {
    /// A fresh memoized response answers the request.
    CachedHit(DeepSeekResponse),
    /// The breaker denies the call: fail fast.
    CircuitOpen,
    /// Proceed with the first downstream attempt.
    Attempt,
}

/// What `on_attempt_failure` decides.
#[derive(Debug, PartialEq, Eq, Structural)]
pub enum RetryPlan {
    /// Try again after the given backoff delay.
    RetryAfter { delay_ms: u64 },
    /// The attempt budget is spent: surface the failure.
    GiveUp,
}

/// Whether memoization is active under this configuration.
pub open spec fn caching_on(c: &Config) -> bool {
    c.cache.enabled && c.cache.cache_response_bodies
}

/// Whether the cache answers the key with an unexpired entry.
pub open spec fn cache_fresh(s: Seq<(u64, CachedResponse)>, k: u64, now_ms: u64) -> bool {
    cache_has(s, k) && !cache_expired(&s[ckey_idx(s, k)].1, now_ms)
}

/// The backoff base before the given attempt: one second doubled per prior
/// attempt.
pub open spec fn backoff_base(attempt: int) -> int
    decreases attempt,
{
    if attempt <= 1 {
        1000
    } else {
        2 * backoff_base(attempt - 1)
    }
}

/// Relies on fastrand::u64 over a half-open range: uniform in `[0, n)`;
/// nothing else is assumed of the outcome.
#[verifier::external_body]
fn rand_below(n: u64) -> (r: u64)
    requires
        n >= 1,
    ensures
        r < n,
{
    fastrand::u64(0..n)
}

/// Computes the backoff base, held within `u64`.
#[verifier::loop_isolation(false)]
fn backoff_base_clamped(attempt: usize) -> (r: u64)
    requires
        attempt >= 1,
    ensures
        r == clamp_u64(backoff_base(attempt as int)),
        r >= 1000,
{
    let mut base: u64 = 1000;
    let mut k: usize = 1;
    while k < attempt
        invariant
            1 <= k <= attempt,
            base == clamp_u64(backoff_base(k as int)),
            base >= 1000,
        decreases attempt - k,
    {
        proof {
            lemma_backoff_base_positive(k as int);
        }
        base = match base.checked_mul(2) {
            Some(v) => v,
            None => u64::MAX,
        };
        k = k + 1;
    }
    base
}

proof fn lemma_backoff_base_positive(a: int)
    ensures
        backoff_base(a) >= 1000,
    decreases a,
{
    if a > 1 {
        lemma_backoff_base_positive(a - 1);
    }
}

/// The client's decision state around the downstream API: breaker, cache
/// and counters.  The HTTP transport lives with the embedding program.
pub struct DeepSeekClient {
    pub config: Config,
    pub circuit_breaker: CircuitBreaker,
    pub response_cache: Vec<(u64, CachedResponse)>,
    pub performance_metrics: PerformanceMetrics,
}

/// The counters after `begin_chat`: one more request, and the hit, miss or
/// trip it caused.
pub open spec fn metrics_after_begin(
    m: PerformanceMetrics,
    caching: bool,
    hit: bool,
    open_trip: bool,
) -> PerformanceMetrics {
    PerformanceMetrics {
        total_requests: crate::rate_limiter::sat_add_u64(m.total_requests as int),
        cache_hits: if caching && hit {
            crate::rate_limiter::sat_add_u64(m.cache_hits as int)
        } else {
            m.cache_hits
        },
        cache_misses: if caching && !hit {
            crate::rate_limiter::sat_add_u64(m.cache_misses as int)
        } else {
            m.cache_misses
        },
        circuit_breaker_trips: if open_trip {
            crate::rate_limiter::sat_add_u64(m.circuit_breaker_trips as int)
        } else {
            m.circuit_breaker_trips
        },
        ..m
    }
}

impl DeepSeekClient {
    /// Builds the client state; refused without a downstream credential.
    pub fn new(config: Config) -> (r: Result<DeepSeekClient, ConfigError>)
        ensures
            r is Ok <==> config.deepseek.api_key@.len() > 0,
            r matches Ok(c) ==> c.config == config && c.response_cache@ =~= Seq::<(
                u64,
                CachedResponse,
            )>::empty() && c.circuit_breaker.state == crate::breaker::BreakerState::Closed
                && c.circuit_breaker.config == config.circuit_breaker
                && c.performance_metrics.total_requests == 0,
            r is Err ==> r == Result::<DeepSeekClient, ConfigError>::Err(ConfigError::EmptyApiKey),
    {
        if config.deepseek.api_key.unicode_len() == 0 {
            return Err(ConfigError::EmptyApiKey);
        }
        let breaker_config = crate::config::CircuitBreakerConfig {
            enabled: config.circuit_breaker.enabled,
            failure_threshold: config.circuit_breaker.failure_threshold,
            recovery_timeout_seconds: config.circuit_breaker.recovery_timeout_seconds,
            half_open_max_calls: config.circuit_breaker.half_open_max_calls,
            timeout_duration_ms: config.circuit_breaker.timeout_duration_ms,
        };
        Ok(
            DeepSeekClient {
                config,
                circuit_breaker: CircuitBreaker::new(breaker_config),
                response_cache: Vec::new(),
                performance_metrics: PerformanceMetrics {
                    total_requests: 0,
                    successful_requests: 0,
                    failed_requests: 0,
                    cache_hits: 0,
                    cache_misses: 0,
                    circuit_breaker_trips: 0,
                },
            },
        )
    }

    /// Builds a chat request from the configuration and the given messages.
    pub fn create_chat_request(&self, messages: Vec<Message>) -> (r: DeepSeekRequest)
        ensures
            r.model@ == self.config.deepseek.model@,
            r.messages == messages,
            r.max_tokens == Some(self.config.deepseek.max_tokens),
            r.temperature_milli == Some(self.config.deepseek.temperature_milli),
            r.stream == Some(false),
    {
        DeepSeekRequest {
            model: clone_string(&self.config.deepseek.model),
            messages,
            max_tokens: Some(self.config.deepseek.max_tokens),
            temperature_milli: Some(self.config.deepseek.temperature_milli),
            stream: Some(false),
        }
    }

    /// Opens one protected call: a fresh memoized response is answered
    /// unchanged (and never an expired one); otherwise an expired entry for
    /// the key is dropped and the breaker decides between failing fast and
    /// attempting the call.
    pub fn begin_chat(&mut self, request: &DeepSeekRequest, now_ms: u64) -> (r: CallPlan)
        ensures
            ({
                let key = cache_key_spec(*request);
                let caching = caching_on(&old(self).config);
                let hit = caching && cache_fresh(old(self).response_cache@, key, now_ms);
                let c0 = old(self).response_cache@;
                &&& final(self).config == old(self).config
                &&& (r is CachedHit <==> hit)
                &&& (r matches CallPlan::CachedHit(resp) ==> response_eq(
                    resp,
                    c0[ckey_idx(c0, key)].1.response,
                ) && final(self).circuit_breaker == old(self).circuit_breaker
                    && final(self).response_cache@ == c0
                    && final(self).performance_metrics == metrics_after_begin(
                    old(self).performance_metrics,
                    caching,
                    true,
                    false,
                ))
                &&& (!hit ==> ({
                    let c1 = if caching && cache_has(c0, key) {
                        c0.remove(ckey_idx(c0, key))
                    } else {
                        c0
                    };
                    let allow = can_execute_allow(old(self).circuit_breaker, now_ms / 1000);
                    &&& final(self).response_cache@ == c1
                    &&& final(self).circuit_breaker == can_execute_next(
                        old(self).circuit_breaker,
                        now_ms / 1000,
                    )
                    &&& (r is CircuitOpen <==> !allow)
                    &&& (allow ==> r is Attempt)
                    &&& final(self).performance_metrics == metrics_after_begin(
                        old(self).performance_metrics,
                        caching,
                        false,
                        !allow,
                    )
                }))
            }),
    {
        self.performance_metrics.total_requests =
            self.performance_metrics.total_requests.saturating_add(1);
        let caching = self.config.cache.enabled && self.config.cache.cache_response_bodies;
        let key = generate_cache_key(request);
        let ghost c0 = self.response_cache@;
        if caching {
            proof {
                lemma_ckey_idx_from_props(self.response_cache@, key, 0);
            }
            match find_cache_key(&self.response_cache, key) {
                Some(i) => {
                    if !self.response_cache[i].1.is_expired(now_ms) {
                        self.performance_metrics.cache_hits =
                            self.performance_metrics.cache_hits.saturating_add(1);
                        let resp = clone_response(&self.response_cache[i].1.response);
                        return CallPlan::CachedHit(resp);
                    }
                    let expired_entry = self.response_cache.remove(i);
                    proof {
                        assert(cache_expired(&expired_entry.1, now_ms));
                    }
                    proof {
                        assert(self.response_cache@ =~= c0.remove(ckey_idx(c0, key)));
                    }
                },
                None => (),
            }
            self.performance_metrics.cache_misses =
                self.performance_metrics.cache_misses.saturating_add(1);
        }
        if !self.circuit_breaker.can_execute(now_ms / 1000) {
            self.performance_metrics.circuit_breaker_trips =
                self.performance_metrics.circuit_breaker_trips.saturating_add(1);
            return CallPlan::CircuitOpen;
        }
        CallPlan::Attempt
    }

    /// Records one failed attempt: the breaker notes the failure, and the
    /// plan is a retry with exponential backoff and jitter while the attempt
    /// budget lasts, else to give up.
    pub fn on_attempt_failure(&mut self, attempt: usize, now_ms: u64) -> (r: RetryPlan)
        requires
            attempt >= 1,
        ensures
            final(self).config == old(self).config,
            final(self).response_cache@ == old(self).response_cache@,
            final(self).circuit_breaker == record_failure_next(
                old(self).circuit_breaker,
                now_ms / 1000,
            ),
            (r == RetryPlan::GiveUp <==> attempt >= old(self).config.deepseek.retry_attempts),
            r == RetryPlan::GiveUp ==> final(self).performance_metrics == (PerformanceMetrics {
                failed_requests: crate::rate_limiter::sat_add_u64(
                    old(self).performance_metrics.failed_requests as int,
                ),
                ..old(self).performance_metrics
            }),
            r matches RetryPlan::RetryAfter { delay_ms } ==> ({
                let base = clamp_u64(backoff_base(attempt as int));
                &&& final(self).performance_metrics == old(self).performance_metrics
                &&& base as int <= delay_ms as int
                &&& delay_ms as int <= clamp_u64(base as int + base as int / 4) as int
            }),
    {
        self.circuit_breaker.record_failure(now_ms / 1000);
        if attempt >= self.config.deepseek.retry_attempts {
            self.performance_metrics.failed_requests =
                self.performance_metrics.failed_requests.saturating_add(1);
            return RetryPlan::GiveUp;
        }
        let base = backoff_base_clamped(attempt);
        let jitter = rand_below(base / 4);
        let delay = base.saturating_add(jitter);
        RetryPlan::RetryAfter { delay_ms: delay }
    }

    /// Records one successful attempt: the breaker closes, the counters
    /// note the success, the response is memoized under the request's key
    /// with the configured lifetime, and the response is handed back.
    pub fn on_attempt_success(
        &mut self,
        request: &DeepSeekRequest,
        response: DeepSeekResponse,
        now_ms: u64,
    ) -> (r: DeepSeekResponse)
        ensures
            r == response,
            final(self).config == old(self).config,
            final(self).circuit_breaker == record_success_next(old(self).circuit_breaker),
            final(self).performance_metrics == (PerformanceMetrics {
                successful_requests: crate::rate_limiter::sat_add_u64(
                    old(self).performance_metrics.successful_requests as int,
                ),
                ..old(self).performance_metrics
            }),
            ({
                let key = cache_key_spec(*request);
                let c0 = old(self).response_cache@;
                let c2 = final(self).response_cache@;
                if caching_on(&old(self).config) {
                    let idx = if cache_has(c0, key) {
                        ckey_idx(c0, key)
                    } else {
                        c0.len() as int
                    };
                    &&& c2.len() == if cache_has(c0, key) {
                        c0.len()
                    } else {
                        c0.len() + 1
                    }
                    &&& (forall|j: int| 0 <= j < c0.len() && j != idx ==> c2[j] == c0[j])
                    &&& 0 <= idx < c2.len()
                    &&& c2[idx].0 == key
                    &&& response_eq(c2[idx].1.response, response)
                    &&& c2[idx].1.created_at == now_ms
                    &&& c2[idx].1.ttl_ms as int == clamp_u64(
                        old(self).config.cache.ttl_seconds as int * 1000,
                    ) as int
                } else {
                    c2 == c0
                }
            }),
    {
        self.circuit_breaker.record_success();
        self.performance_metrics.successful_requests =
            self.performance_metrics.successful_requests.saturating_add(1);
        if self.config.cache.enabled && self.config.cache.cache_response_bodies {
            let key = generate_cache_key(request);
            let ttl = self.config.get_cache_ttl();
            let entry = CachedResponse {
                response: clone_response(&response),
                created_at: now_ms,
                ttl_ms: ttl,
            };
            proof {
                lemma_ckey_idx_from_props(self.response_cache@, key, 0);
            }
            match find_cache_key(&self.response_cache, key) {
                Some(i) => {
                    self.response_cache[i] = (key, entry);
                },
                None => {
                    self.response_cache.push((key, entry));
                },
            }
        }
        response
    }

    /// Entries still unexpired at `now`.
    pub open spec fn live_cache(s: Seq<(u64, CachedResponse)>, now_ms: u64) -> Seq<
        (u64, CachedResponse),
    >
        decreases s.len(),
    {
        if s.len() == 0 {
            Seq::empty()
        } else if !cache_expired(&s[0].1, now_ms) {
            seq![s[0]] + Self::live_cache(s.drop_first(), now_ms)
        } else {
            Self::live_cache(s.drop_first(), now_ms)
        }
    }

    /// The periodic sweep: drops every expired entry.  With the cache
    /// disabled nothing is touched.
    #[verifier::loop_isolation(false)]
    pub fn cleanup_expired_cache(&mut self, now_ms: u64)
        ensures
            final(self).config == old(self).config,
            final(self).circuit_breaker == old(self).circuit_breaker,
            final(self).performance_metrics == old(self).performance_metrics,
            old(self).config.cache.enabled ==> final(self).response_cache@ == Self::live_cache(
                old(self).response_cache@,
                now_ms,
            ),
            !old(self).config.cache.enabled ==> final(self).response_cache@ == old(self).response_cache@,
    {
        if !self.config.cache.enabled {
            return ;
        }
        let ghost c0 = self.response_cache@;
        let mut kept: Vec<(u64, CachedResponse)> = Vec::new();
        while self.response_cache.len() > 0
            invariant
                Self::live_cache(c0, now_ms) == kept@ + Self::live_cache(
                    self.response_cache@,
                    now_ms,
                ),
                self.config == old(self).config,
                self.circuit_breaker == old(self).circuit_breaker,
                self.performance_metrics == old(self).performance_metrics,
            decreases self.response_cache@.len(),
        {
            let ghost cur0 = self.response_cache@;
            let ghost kept0 = kept@;
            let pair = self.response_cache.remove(0);
            let expired = pair.1.is_expired(now_ms);
            if !expired {
                kept.push(pair);
            }
            proof {
                assert(self.response_cache@ =~= cur0.drop_first());
                assert(kept0 + Self::live_cache(cur0, now_ms) =~= kept@ + Self::live_cache(
                    self.response_cache@,
                    now_ms,
                ));
            }
        }
        proof {
            assert(Self::live_cache(self.response_cache@, now_ms) =~= Seq::<(
                u64,
                CachedResponse,
            )>::empty());
            assert(kept@ + Self::live_cache(self.response_cache@, now_ms) =~= kept@);
        }
        self.response_cache = kept;
    }

    /// A copy of the counters.
    pub fn get_performance_metrics(&self) -> (r: PerformanceMetrics)
        ensures
            r == self.performance_metrics,
    {
        self.performance_metrics
    }
}

/// A memoized entry is answered unchanged at any age within its lifetime and
/// never once its age exceeds it: for a client whose cache maps the
/// request's key to an entry and whose caching is on, `begin_chat` yields a
/// hit exactly while the entry is unexpired.
pub proof fn lemma_cache_ttl_boundary(
    cache: Seq<(u64, CachedResponse)>,
    key: u64,
    now_ms: u64,
)
    requires
        cache_has(cache, key),
    ensures
        ({
            let c = cache[ckey_idx(cache, key)].1;
            &&& (now_ms <= c.created_at + c.ttl_ms ==> cache_fresh(cache, key, now_ms))
            &&& (now_ms > c.created_at + c.ttl_ms ==> !cache_fresh(cache, key, now_ms))
        }),
{
}

} // verus!
