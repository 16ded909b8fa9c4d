//! Audit logging: structured security events with redacted detail values, a
//! bounded in-memory ring of recent events, per-client behavioral patterns
//! that feed a risk adjustment, and summaries over the buffer.

use crate::rate_limiter::{clamp_u32, has_key, key_idx, lemma_key_idx_from_props, find_key};
use crate::redact::{redact, redact_spec};
use crate::text::{new_uuid_string, replace_from, replace_sub, str_chars, str_eq,
    chars_to_string};
use vstd::prelude::*;

verus! {

/// Security event types for audit logging.
#[derive(Debug, Clone, Copy, PartialEq, Eq, Structural)]
pub enum SecurityEventType {
    Authentication,
    Authorization,
    RateLimiting,
    InputValidation,
    SuspiciousActivity,
    DataAccess,
    ConfigurationChange,
    SecurityViolation,
    SystemAccess,
}

/// Security event severity levels.
#[derive(Debug, Clone, Copy, PartialEq, Eq, Structural)]
pub enum EventSeverity {
    Critical,
    High,
    Medium,
    Low,
    Info,
}

/// The logging level an event of a given severity is emitted at.
#[derive(Debug, Clone, Copy, PartialEq, Eq, Structural)]
pub enum LogLevel {
    Error,
    Warn,
    Info,
    Debug,
}

/// Critical and high severities log as errors, medium warns, low informs,
/// informational events log as debug.
pub open spec fn log_level_spec(s: EventSeverity) -> LogLevel {
    match s {
        EventSeverity::Critical => LogLevel::Error,
        EventSeverity::High => LogLevel::Error,
        EventSeverity::Medium => LogLevel::Warn,
        EventSeverity::Low => LogLevel::Info,
        EventSeverity::Info => LogLevel::Debug,
    }
}

/// The level an event of severity `s` is emitted at.
pub fn severity_log_level(s: EventSeverity) -> (r: LogLevel)
    ensures
        r == log_level_spec(s),
{
    match s {
        EventSeverity::Critical => LogLevel::Error,
        EventSeverity::High => LogLevel::Error,
        EventSeverity::Medium => LogLevel::Warn,
        EventSeverity::Low => LogLevel::Info,
        EventSeverity::Info => LogLevel::Debug,
    }
}

/// Sanitized key-value details of an event.
pub struct EventDetails {
    pub entries: Vec<(String, String)>,
}

impl EventDetails {
    pub fn new() -> (r: EventDetails)
        ensures
            r.entries@ =~= Seq::<(String, String)>::empty(),
    {
        EventDetails { entries: Vec::new() }
    }

    /// The stored value for a key.
    pub fn get(&self, key: &str) -> (r: Option<&String>)
        ensures
            match r {
                Some(v) => has_key(self.entries@, key@) && v@ == self.entries@[key_idx(
                    self.entries@,
                    key@,
                )].1@,
                None => !has_key(self.entries@, key@),
            },
    {
        proof {
            lemma_key_idx_from_props(self.entries@, key@, 0);
        }
        match find_key(&self.entries, key) {
            Some(i) => Some(&self.entries[i].1),
            None => None,
        }
    }

    /// Stores a value under a key, replacing an earlier value.
    pub fn set(&mut self, key: &str, value: String)
        ensures
            ({
                let d0 = old(self).entries@;
                let idx = if has_key(d0, key@) {
                    key_idx(d0, key@)
                } else {
                    d0.len() as int
                };
                &&& final(self).entries@.len() == if has_key(d0, key@) {
                    d0.len()
                } else {
                    d0.len() + 1
                }
                &&& (forall|j: int| 0 <= j < d0.len() && j != idx ==> final(self).entries@[j] == d0[j])
                &&& 0 <= idx < final(self).entries@.len()
                &&& final(self).entries@[idx].0@ == key@
                &&& final(self).entries@[idx].1@ == value@
            }),
    {
        proof {
            lemma_key_idx_from_props(self.entries@, key@, 0);
        }
        match find_key(&self.entries, key) {
            Some(i) => {
                self.entries[i] = (String::from_str(key), value);
            },
            None => {
                self.entries.push((String::from_str(key), value));
            },
        }
    }

    /// How many details are stored.
    pub fn len(&self) -> (r: usize)
        ensures
            r == self.entries@.len(),
    {
        self.entries.len()
    }
}

/// Immutable audit event record.  Detail values are stored redacted; the
/// risk score is adjusted additively exactly once when the event is logged.
pub struct AuditLogEntry {
    pub event_id: String,
    pub timestamp_ms: u64,
    pub event_type: SecurityEventType,
    pub severity: EventSeverity,
    pub source_ip: Option<String>,
    pub user_agent: Option<String>,
    pub client_id: Option<String>,
    pub method: Option<String>,
    pub resource: Option<String>,
    pub action: String,
    pub result: String,
    pub details: EventDetails,
    pub risk_score: u32,
}

/// User agents are cut to this many characters before storage.
pub const USER_AGENT_MAX_LEN: usize = 200;

pub open spec fn pat_bearer_sp() -> Seq<char> {
    seq!['B', 'e', 'a', 'r', 'e', 'r', ' ']
}

pub open spec fn rep_token() -> Seq<char> {
    seq!['[', 'T', 'O', 'K', 'E', 'N', ']']
}

pub open spec fn pat_authorization() -> Seq<char> {
    seq!['A', 'u', 't', 'h', 'o', 'r', 'i', 'z', 'a', 't', 'i', 'o', 'n', ':']
}

pub open spec fn rep_auth() -> Seq<char> {
    seq!['[', 'A', 'U', 'T', 'H', ']']
}

/// The stored form of a user agent: cut to the length bound, with bearer
/// credentials and authorization headers masked.
pub open spec fn ua_sanitized(s: Seq<char>) -> Seq<char> {
    let cut = if s.len() > USER_AGENT_MAX_LEN as int {
        s.take(USER_AGENT_MAX_LEN as int)
    } else {
        s
    };
    replace_from(replace_from(cut, pat_bearer_sp(), rep_token(), 0), pat_authorization(), rep_auth(), 0)
}

impl AuditLogEntry {
    /// A fresh event with a random identifier, stamped `now`, with a pending
    /// result and no risk.
    pub fn new(
        event_type: SecurityEventType,
        severity: EventSeverity,
        action: String,
        now_ms: u64,
    ) -> (r: AuditLogEntry)
        ensures
            r.event_id@.len() == 36,
            r.timestamp_ms == now_ms,
            r.event_type == event_type,
            r.severity == severity,
            r.source_ip is None,
            r.user_agent is None,
            r.client_id is None,
            r.method is None,
            r.resource is None,
            r.action == action,
            r.result@ == "pending"@,
            r.details.entries@ =~= Seq::<(String, String)>::empty(),
            r.risk_score == 0,
    {
        AuditLogEntry {
            event_id: new_uuid_string(),
            timestamp_ms: now_ms,
            event_type,
            severity,
            source_ip: None,
            user_agent: None,
            client_id: None,
            method: None,
            resource: None,
            action,
            result: String::from_str("pending"),
            details: EventDetails::new(),
            risk_score: 0,
        }
    }

    pub fn with_source_ip(self, ip: String) -> (r: AuditLogEntry)
        ensures
            r == (AuditLogEntry { source_ip: Some(ip), ..self }),
    {
        AuditLogEntry { source_ip: Some(ip), ..self }
    }

    /// Stores the user agent cut to the length bound with credentials
    /// masked.
    pub fn with_user_agent(self, user_agent: String) -> (r: AuditLogEntry)
        ensures
            r.user_agent matches Some(ua) && ua@ == ua_sanitized(user_agent@),
            r == (AuditLogEntry { user_agent: r.user_agent, ..self }),
    {
        let mut v = str_chars(user_agent.as_str());
        if v.len() > USER_AGENT_MAX_LEN {
            v.truncate(USER_AGENT_MAX_LEN);
            proof {
                assert(v@ =~= user_agent@.take(USER_AGENT_MAX_LEN as int));
            }
        }
        let pat1: Vec<char> = vec!['B', 'e', 'a', 'r', 'e', 'r', ' '];
        let rep1: Vec<char> = vec!['[', 'T', 'O', 'K', 'E', 'N', ']'];
        let pat2: Vec<char> = vec![
            'A',
            'u',
            't',
            'h',
            'o',
            'r',
            'i',
            'z',
            'a',
            't',
            'i',
            'o',
            'n',
            ':',
        ];
        let rep2: Vec<char> = vec!['[', 'A', 'U', 'T', 'H', ']'];
        proof {
            assert(pat1@ =~= pat_bearer_sp());
            assert(rep1@ =~= rep_token());
            assert(pat2@ =~= pat_authorization());
            assert(rep2@ =~= rep_auth());
        }
        let v2 = replace_sub(&v, &pat1, &rep1);
        let v3 = replace_sub(&v2, &pat2, &rep2);
        AuditLogEntry { user_agent: Some(chars_to_string(&v3)), ..self }
    }

    pub fn with_client_id(self, client_id: String) -> (r: AuditLogEntry)
        ensures
            r == (AuditLogEntry { client_id: Some(client_id), ..self }),
    {
        AuditLogEntry { client_id: Some(client_id), ..self }
    }

    pub fn with_method(self, method: String) -> (r: AuditLogEntry)
        ensures
            r == (AuditLogEntry { method: Some(method), ..self }),
    {
        AuditLogEntry { method: Some(method), ..self }
    }

    pub fn with_resource(self, resource: String) -> (r: AuditLogEntry)
        ensures
            r == (AuditLogEntry { resource: Some(resource), ..self }),
    {
        AuditLogEntry { resource: Some(resource), ..self }
    }

    pub fn with_result(self, result: String) -> (r: AuditLogEntry)
        ensures
            r == (AuditLogEntry { result, ..self }),
    {
        AuditLogEntry { result, ..self }
    }

    /// Stores a detail value under a key after passing it through redaction:
    /// the stored form is the redaction of the given value, never the value
    /// itself.
    pub fn with_detail(self, key: String, value: String) -> (r: AuditLogEntry)
        ensures
            ({
                let d0 = self.details.entries@;
                let d2 = r.details.entries@;
                let idx = if has_key(d0, key@) {
                    key_idx(d0, key@)
                } else {
                    d0.len() as int
                };
                &&& d2.len() == if has_key(d0, key@) {
                    d0.len()
                } else {
                    d0.len() + 1
                }
                &&& (forall|j: int| 0 <= j < d0.len() && j != idx ==> d2[j] == d0[j])
                &&& 0 <= idx < d2.len()
                &&& d2[idx].0@ == key@
                &&& d2[idx].1@ == redact_spec(value@)
            }),
            r == (AuditLogEntry { details: r.details, ..self }),
    {
        let sanitized = redact(value.as_str());
        let mut details = self.details;
        details.set(key.as_str(), sanitized);
        AuditLogEntry { details, ..self }
    }

    pub fn with_risk_score(self, score: u32) -> (r: AuditLogEntry)
        ensures
            r == (AuditLogEntry { risk_score: score, ..self }),
    {
        AuditLogEntry { risk_score: score, ..self }
    }
}

/// Per-client accumulators behind the audit pattern analysis.
#[derive(Clone, Copy)]
pub struct ClientPattern {
    pub request_count: u32,
    pub failed_attempts: u32,
    pub suspicious_activities: u32,
    pub last_activity_ms: u64,
    pub pattern_score: u32,
}

/// The risk adjustment derived from a client's failed attempts and
/// suspicious activities.
pub open spec fn risk_adjustment(f: int, s: int) -> u32 {
    if f > 5 || s > 3 {
        20u32
    } else if f > 3 || s > 1 {
        10u32
    } else if f > 1 || s > 0 {
        5u32
    } else {
        0u32
    }
}

/// Whether an event counts against the client's failure tally.
pub open spec fn counts_as_failure(e: &AuditLogEntry) -> bool {
    e.event_type == SecurityEventType::Authentication && e.result@ == "failure"@
}

/// Whether an event counts against the client's suspicion tally.
pub open spec fn counts_as_suspicious(e: &AuditLogEntry) -> bool {
    e.event_type == SecurityEventType::SuspiciousActivity || (e.event_type
        == SecurityEventType::InputValidation && e.result@ == "rejected"@)
}

/// A client's pattern after absorbing one event.
pub open spec fn pattern_updated(p0: ClientPattern, e: &AuditLogEntry) -> ClientPattern {
    let p1 = ClientPattern {
        request_count: clamp_u32(p0.request_count as int + 1),
        last_activity_ms: e.timestamp_ms,
        ..p0
    };
    let p2 = if counts_as_failure(e) {
        ClientPattern { failed_attempts: clamp_u32(p1.failed_attempts as int + 1), ..p1 }
    } else if counts_as_suspicious(e) {
        ClientPattern {
            suspicious_activities: clamp_u32(p1.suspicious_activities as int + 1),
            ..p1
        }
    } else {
        p1
    };
    ClientPattern {
        pattern_score: risk_adjustment(p2.failed_attempts as int, p2.suspicious_activities as int),
        ..p2
    }
}

/// The pattern a client holds, or a clean one.
pub open spec fn pattern_at(
    P: Seq<(String, ClientPattern)>,
    k: Seq<char>,
    now_ms: u64,
) -> ClientPattern {
    if has_key(P, k) {
        P[key_idx(P, k)].1
    } else {
        ClientPattern {
            request_count: 0u32,
            failed_attempts: 0u32,
            suspicious_activities: 0u32,
            last_activity_ms: now_ms,
            pattern_score: 0u32,
        }
    }
}

/// Behavioral pattern detector over the clients seen in audit events.
pub struct SecurityPatternDetector {
    pub client_patterns: Vec<(String, ClientPattern)>,
}

impl SecurityPatternDetector {
    pub fn new() -> (r: SecurityPatternDetector)
        ensures
            r.client_patterns@ =~= Seq::<(String, ClientPattern)>::empty(),
    {
        SecurityPatternDetector { client_patterns: Vec::new() }
    }

    /// Absorbs one event into the client's pattern and returns the risk
    /// adjustment it yields; an event without a client yields nothing.
    pub fn analyze_event(&mut self, entry: &AuditLogEntry) -> (r: u32)
        ensures
            entry.client_id is None ==> r == 0 && final(self).client_patterns@ == old(
                self,
            ).client_patterns@,
            entry.client_id matches Some(cid) ==> ({
                let P = old(self).client_patterns@;
                let k = cid@;
                let p2 = pattern_updated(pattern_at(P, k, entry.timestamp_ms), entry);
                let idx = if has_key(P, k) {
                    key_idx(P, k)
                } else {
                    P.len() as int
                };
                &&& r == p2.pattern_score
                &&& final(self).client_patterns@.len() == if has_key(P, k) {
                    P.len()
                } else {
                    P.len() + 1
                }
                &&& (forall|j: int|
                    0 <= j < P.len() && j != idx ==> final(self).client_patterns@[j] == P[j])
                &&& 0 <= idx < final(self).client_patterns@.len()
                &&& final(self).client_patterns@[idx].0@ == k
                &&& final(self).client_patterns@[idx].1 == p2
            }),
    {
        let cid = match &entry.client_id {
            None => {
                return 0;
            },
            Some(c) => c,
        };
        proof {
            lemma_key_idx_from_props(self.client_patterns@, cid@, 0);
        }
        let idx: usize = match find_key(&self.client_patterns, cid.as_str()) {
            Some(i) => i,
            None => {
                let i = self.client_patterns.len();
                self.client_patterns.push(
                    (
                        String::from_str(cid.as_str()),
                        ClientPattern {
                            request_count: 0,
                            failed_attempts: 0,
                            suspicious_activities: 0,
                            last_activity_ms: entry.timestamp_ms,
                            pattern_score: 0,
                        },
                    ),
                );
                i
            },
        };
        let mut p = self.client_patterns[idx].1;
        p.request_count = p.request_count.saturating_add(1);
        p.last_activity_ms = entry.timestamp_ms;
        let is_failure = match entry.event_type {
            SecurityEventType::Authentication => str_eq(entry.result.as_str(), "failure"),
            _ => false,
        };
        let is_suspicious = match entry.event_type {
            SecurityEventType::SuspiciousActivity => true,
            SecurityEventType::InputValidation => str_eq(entry.result.as_str(), "rejected"),
            _ => false,
        };
        if is_failure {
            p.failed_attempts = p.failed_attempts.saturating_add(1);
        } else if is_suspicious {
            p.suspicious_activities = p.suspicious_activities.saturating_add(1);
        }
        let adj: u32 = if p.failed_attempts > 5 || p.suspicious_activities > 3 {
            20
        } else if p.failed_attempts > 3 || p.suspicious_activities > 1 {
            10
        } else if p.failed_attempts > 1 || p.suspicious_activities > 0 {
            5
        } else {
            0
        };
        p.pattern_score = adj;
        self.client_patterns[idx] = (String::from_str(cid.as_str()), p);
        adj
    }
}

/// Default capacity of the audit ring buffer.
pub const DEFAULT_AUDIT_BUFFER_SIZE: usize = 1000;

/// Default number of events an audit query returns.
pub const DEFAULT_RECENT_LIMIT: usize = 100;

/// Security audit logger with a bounded event ring and pattern analysis.
pub struct SecurityAuditor {
    pub enabled: bool,
    pub buffer: Vec<AuditLogEntry>,
    pub max_buffer_size: usize,
    pub security_patterns: SecurityPatternDetector,
}

impl SecurityAuditor {
    pub fn new(enabled: bool) -> (r: SecurityAuditor)
        ensures
            r.enabled == enabled,
            r.buffer@ =~= Seq::<AuditLogEntry>::empty(),
            r.max_buffer_size == DEFAULT_AUDIT_BUFFER_SIZE,
            r.security_patterns.client_patterns@ =~= Seq::<(String, ClientPattern)>::empty(),
    {
        SecurityAuditor {
            enabled,
            buffer: Vec::new(),
            max_buffer_size: DEFAULT_AUDIT_BUFFER_SIZE,
            security_patterns: SecurityPatternDetector::new(),
        }
    }

    /// Records one event: the pattern analysis adds its risk adjustment to
    /// the event's score exactly once, the adjusted event is appended, and
    /// the oldest event leaves when the ring is over capacity.  A disabled
    /// auditor records nothing.
    pub fn log_event(&mut self, entry: AuditLogEntry)
        ensures
            !old(self).enabled ==> *final(self) == *old(self),
            old(self).enabled ==> ({
                let adj = match entry.client_id {
                    None => 0u32,
                    Some(cid) => pattern_updated(
                        pattern_at(
                            old(self).security_patterns.client_patterns@,
                            cid@,
                            entry.timestamp_ms,
                        ),
                        &entry,
                    ).pattern_score,
                };
                let e2 = AuditLogEntry {
                    risk_score: clamp_u32(entry.risk_score as int + adj as int),
                    ..entry
                };
                &&& final(self).enabled == old(self).enabled
                &&& final(self).max_buffer_size == old(self).max_buffer_size
                &&& final(self).buffer@ == SecurityAuditor::buffer_after(*old(self), e2)
                &&& detector_after(
                    old(self).security_patterns.client_patterns@,
                    final(self).security_patterns.client_patterns@,
                    entry,
                )
            }),
    {
        if !self.enabled {
            return ;
        }
        let adj = self.security_patterns.analyze_event(&entry);
        let mut adjusted = entry;
        adjusted.risk_score = adjusted.risk_score.saturating_add(adj);
        self.buffer.push(adjusted);
        if self.buffer.len() > self.max_buffer_size {
            let evicted = self.buffer.remove(0);
            proof {
                assert(evicted == old(self).buffer@.push(
                    AuditLogEntry {
                        risk_score: clamp_u32(entry.risk_score as int + adj as int),
                        ..entry
                    },
                )[0]);
            }
            proof {
                assert(self.buffer@ =~= old(self).buffer@.push(
                    AuditLogEntry {
                        risk_score: clamp_u32(entry.risk_score as int + adj as int),
                        ..entry
                    },
                ).drop_first());
            }
        }
    }

    /// The newest events, newest first, at most `limit` of them (or the
    /// default query size).
    #[verifier::loop_isolation(false)]
    pub fn get_recent_events(&self, limit: Option<usize>) -> (r: Vec<&AuditLogEntry>)
        ensures
            ({
                let lim = match limit {
                    Some(l) => l as int,
                    None => DEFAULT_RECENT_LIMIT as int,
                };
                let n = if lim <= self.buffer@.len() {
                    lim
                } else {
                    self.buffer@.len() as int
                };
                &&& r@.len() == n
                &&& (forall|i: int|
                    0 <= i < n ==> r@[i] == &self.buffer@[self.buffer@.len() - 1 - i])
            }),
    {
        let lim = match limit {
            Some(l) => l,
            None => DEFAULT_RECENT_LIMIT,
        };
        let mut out: Vec<&AuditLogEntry> = Vec::new();
        let mut i: usize = 0;
        while i < lim && i < self.buffer.len()
            invariant
                0 <= i <= self.buffer@.len(),
                i <= lim,
                out@.len() == i,
                forall|j: int| 0 <= j < i ==> out@[j] == &self.buffer@[self.buffer@.len() - 1 - j],
            decreases self.buffer@.len() - i,
        {
            let idx = self.buffer.len() - 1 - i;
            out.push(&self.buffer[idx]);
            i = i + 1;
        }
        out
    }
}


/// The decimal digit character for a value below ten.
pub open spec fn dec_digit(n: int) -> char {
    if n == 0 {
        '0'
    } else if n == 1 {
        '1'
    } else if n == 2 {
        '2'
    } else if n == 3 {
        '3'
    } else if n == 4 {
        '4'
    } else if n == 5 {
        '5'
    } else if n == 6 {
        '6'
    } else if n == 7 {
        '7'
    } else if n == 8 {
        '8'
    } else {
        '9'
    }
}

/// The decimal form of a non-negative number.
pub open spec fn dec_of(n: int) -> Seq<char>
    decreases n when n >= 0
{
    if n < 10 {
        seq![dec_digit(n)]
    } else {
        dec_of(n / 10).push(dec_digit(n % 10))
    }
}

fn dec_digit_char(n: u32) -> (r: char)
    requires
        n < 10,
    ensures
        r == dec_digit(n as int),
{
    if n == 0 {
        '0'
    } else if n == 1 {
        '1'
    } else if n == 2 {
        '2'
    } else if n == 3 {
        '3'
    } else if n == 4 {
        '4'
    } else if n == 5 {
        '5'
    } else if n == 6 {
        '6'
    } else if n == 7 {
        '7'
    } else if n == 8 {
        '8'
    } else {
        '9'
    }
}

fn u32_dec_chars(n: u32) -> (r: Vec<char>)
    ensures
        r@ == dec_of(n as int),
    decreases n,
{
    if n < 10 {
        let v: Vec<char> = vec![dec_digit_char(n)];
        proof {
            assert(v@ =~= dec_of(n as int));
        }
        v
    } else {
        let mut v = u32_dec_chars(n / 10);
        v.push(dec_digit_char(n % 10));
        v
    }
}

/// The decimal text of a number.
pub fn u32_to_string(n: u32) -> (r: String)
    ensures
        r@ == dec_of(n as int),
{
    let v = u32_dec_chars(n);
    chars_to_string(&v)
}

/// Every detail stored in the entry is the redaction of one of the given
/// values, stored under its key.
/// The stored pair at hand is the redaction of the `j`-th given pair.
pub open spec fn detail_matches(
    stored: (String, String),
    given: Seq<(String, String)>,
    j: int,
) -> bool {
    0 <= j < given.len() && stored.0@ == given[j].0@ && stored.1@ == redact_spec(given[j].1@)
}

/// The stored pair is the redaction of some given pair.
pub open spec fn detail_ok(p: (String, String), given: Seq<(String, String)>) -> bool {
    exists|j: int| #[trigger] detail_matches(p, given, j)
}

pub open spec fn details_from(
    stored: Seq<(String, String)>,
    given: Seq<(String, String)>,
) -> bool {
    forall|di: int| 0 <= di < stored.len() ==> #[trigger] detail_ok(stored[di], given)
}


/// Upserting the redaction of one given pair preserves `details_from`.
proof fn lemma_details_from_step(
    s0: Seq<(String, String)>,
    s2: Seq<(String, String)>,
    given: Seq<(String, String)>,
    idx: int,
    jj: int,
)
    requires
        details_from(s0, given),
        0 <= jj < given.len(),
        s0.len() <= s2.len() <= s0.len() + 1,
        forall|j: int| 0 <= j < s0.len() && j != idx ==> s2[j] == s0[j],
        0 <= idx < s2.len(),
        s2.len() == s0.len() + 1 ==> idx == s0.len() as int,
        s2[idx].0@ == given[jj].0@,
        s2[idx].1@ == redact_spec(given[jj].1@),
    ensures
        details_from(s2, given),
{
    assert forall|dd: int| 0 <= dd < s2.len() implies #[trigger] detail_ok(s2[dd], given) by {
        if dd != idx {
            assert(s2[dd] == s0[dd]);
            assert(detail_ok(s0[dd], given));
        } else {
            assert(detail_matches(s2[dd], given, jj));
        }
    }
}


/// How the pattern detector's map changes when one event is absorbed:
/// untouched for an event without a client, else exactly the client's
/// pattern is replaced (or appended) by its updated form.
pub open spec fn detector_after(
    P: Seq<(String, ClientPattern)>,
    P2: Seq<(String, ClientPattern)>,
    entry: AuditLogEntry,
) -> bool {
    match entry.client_id {
        None => P2 == P,
        Some(cid) => {
            let k = cid@;
            let p2 = pattern_updated(pattern_at(P, k, entry.timestamp_ms), &entry);
            let idx = if has_key(P, k) {
                key_idx(P, k)
            } else {
                P.len() as int
            };
            &&& P2.len() == if has_key(P, k) {
                P.len()
            } else {
                P.len() + 1
            }
            &&& (forall|j: int| 0 <= j < P.len() && j != idx ==> P2[j] == P[j])
            &&& 0 <= idx < P2.len()
            &&& P2[idx].0@ == k
            &&& P2[idx].1 == p2
        },
    }
}

/// The risk adjustment one event earns, from the client's prior pattern and
/// whether the event counts as a failure or as suspicious.
pub open spec fn event_adjustment(
    P: Seq<(String, ClientPattern)>,
    k: Seq<char>,
    now_ms: u64,
    is_failure: bool,
    is_susp: bool,
) -> u32 {
    let p0 = pattern_at(P, k, now_ms);
    let f = if is_failure {
        clamp_u32(p0.failed_attempts as int + 1)
    } else {
        p0.failed_attempts
    };
    let sa = if is_susp {
        clamp_u32(p0.suspicious_activities as int + 1)
    } else {
        p0.suspicious_activities
    };
    risk_adjustment(f as int, sa as int)
}

/// What one recorded event does to the ring: the adjusted event is the last,
/// and the earlier events stay, minus the oldest when over capacity.
proof fn lemma_ring_shape(
    pre: Seq<AuditLogEntry>,
    max: int,
    e2: AuditLogEntry,
    post: Seq<AuditLogEntry>,
)
    requires
        max >= 1,
        post == if pre.push(e2).len() > max {
            pre.push(e2).drop_first()
        } else {
            pre.push(e2)
        },
    ensures
        post.len() >= 1,
        post.last() == e2,
        post.len() == if pre.len() + 1 > max {
            pre.len()
        } else {
            pre.len() + 1
        },
        post.drop_last() == if pre.len() + 1 > max {
            pre.drop_first()
        } else {
            pre
        },
{
    let b1 = pre.push(e2);
    if b1.len() > max {
        assert(post.last() == e2);
        assert(post.drop_last() =~= pre.drop_first());
    } else {
        assert(post.drop_last() =~= pre);
    }
}

/// An upsert keeps every existing key and holds the new one.
proof fn lemma_upsert_keys(
    d0: Seq<(String, String)>,
    d2: Seq<(String, String)>,
    k: Seq<char>,
    idx: int,
)
    requires
        idx == if has_key(d0, k) {
            key_idx(d0, k)
        } else {
            d0.len() as int
        },
        d2.len() == if has_key(d0, k) {
            d0.len()
        } else {
            d0.len() + 1
        },
        forall|j: int| 0 <= j < d0.len() && j != idx ==> d2[j] == d0[j],
        0 <= idx < d2.len(),
        d2[idx].0@ == k,
    ensures
        has_key(d2, k),
        forall|x: Seq<char>| #[trigger] has_key(d0, x) ==> has_key(d2, x),
{
    lemma_key_idx_from_props(d0, k, 0);
    lemma_key_idx_from_props(d2, k, 0);
    if !has_key(d2, k) {
        assert(d2[idx].0@ != k);
    }
    assert forall|x: Seq<char>| #[trigger] has_key(d0, x) implies has_key(d2, x) by {
        lemma_key_idx_from_props(d0, x, 0);
        let m = key_idx(d0, x);
        lemma_key_idx_from_props(d2, x, 0);
        if !has_key(d2, x) {
            if m == idx {
                assert(d0[idx].0@ == k);
                assert(x == k);
            } else {
                assert(d2[m] == d0[m]);
                assert(d2[m].0@ != x);
            }
        }
    }
}

impl SecurityAuditor {
    /// The ring after appending one adjusted event.
    pub open spec fn buffer_after(
        pre: SecurityAuditor,
        e2: AuditLogEntry,
    ) -> Seq<AuditLogEntry> {
        let b1 = pre.buffer@.push(e2);
        if b1.len() > pre.max_buffer_size as int {
            b1.drop_first()
        } else {
            b1
        }
    }

    /// Records an authentication attempt: an informational success or a
    /// medium-severity failure, with every free-text detail stored redacted.
    pub fn log_authentication(
        &mut self,
        client_id: Option<String>,
        source_ip: Option<String>,
        success: bool,
        details: Vec<(String, String)>,
        now_ms: u64,
    )
        ensures
            !old(self).enabled ==> *final(self) == *old(self),
            final(self).enabled == old(self).enabled,
            old(self).enabled && old(self).max_buffer_size >= 1 ==> ({
                let P = old(self).security_patterns.client_patterns@;
                let e = final(self).buffer@.last();
                &&& final(self).buffer@.len() >= 1
                &&& e.event_type == SecurityEventType::Authentication
                &&& e.severity == if success {
                    EventSeverity::Info
                } else {
                    EventSeverity::Medium
                }
                &&& e.action@ == if success {
                    "authentication_success"@
                } else {
                    "authentication_failure"@
                }
                &&& e.result@ == if success {
                    "success"@
                } else {
                    "failure"@
                }
                &&& e.timestamp_ms == now_ms
                &&& (client_id matches Some(c) ==> e.client_id matches Some(ec) && ec@ == c@)
                &&& details_from(e.details.entries@, details@)
                &&& e.details.entries@.len() <= details@.len()
                &&& (forall|j: int|
                    0 <= j < details@.len() ==> #[trigger] has_key(
                        e.details.entries@,
                        details@[j].0@,
                    ))
                &&& (client_id matches Some(c) ==> e.risk_score == clamp_u32(
                    event_adjustment(P, c@, now_ms, !success, false) as int,
                ))
                &&& (client_id is None ==> e.risk_score == 0)
                &&& final(self).buffer@.len() == (if old(self).buffer@.len() + 1 > old(
                    self,
                ).max_buffer_size as int {
                    old(self).buffer@.len()
                } else {
                    old(self).buffer@.len() + 1
                })
                &&& final(self).buffer@.drop_last() == (if old(self).buffer@.len() + 1 > old(
                    self,
                ).max_buffer_size as int {
                    old(self).buffer@.drop_first()
                } else {
                    old(self).buffer@
                })
            }),
    {
        let severity = if success {
            EventSeverity::Info
        } else {
            EventSeverity::Medium
        };
        let action = if success {
            String::from_str("authentication_success")
        } else {
            String::from_str("authentication_failure")
        };
        let result = if success {
            String::from_str("success")
        } else {
            String::from_str("failure")
        };
        let mut entry = AuditLogEntry::new(
            SecurityEventType::Authentication,
            severity,
            action,
            now_ms,
        ).with_result(result);
        match client_id {
            Some(cid) => {
                entry = entry.with_client_id(cid);
            },
            None => (),
        }
        match source_ip {
            Some(ip) => {
                entry = entry.with_source_ip(ip);
            },
            None => (),
        }
        let mut di: usize = 0;
        let dlen = details.len();
        let mut rest = details;
        while rest.len() > 0
            invariant
                rest@.len() + di == dlen,
                dlen == details@.len(),
                forall|j: int| 0 <= j < rest@.len() ==> rest@[j] == details@[di + j],
                details_from(entry.details.entries@, details@),
                entry.details.entries@.len() <= di,
                forall|j: int|
                    0 <= j < di ==> #[trigger] has_key(entry.details.entries@, details@[j].0@),
                entry.event_type == SecurityEventType::Authentication,
                entry.severity == (if success { EventSeverity::Info } else { EventSeverity::Medium }),
                entry.action@ == (if success { "authentication_success"@ } else { "authentication_failure"@ }),
                entry.result@ == (if success { "success"@ } else { "failure"@ }),
                entry.timestamp_ms == now_ms,
                entry.risk_score == 0,
                (client_id matches Some(c) ==> entry.client_id matches Some(ec) && ec@ == c@),
                (client_id is None ==> entry.client_id is None),
                *self == *old(self),
            decreases rest@.len(),
        {
            let ghost stored0 = entry.details.entries@;
            let pair = rest.remove(0);
            let ghost jj = di as int;
            entry = entry.with_detail(pair.0, pair.1);
            di = di + 1;
            proof {
                let idx0 = if has_key(stored0, details@[jj].0@) {
                    key_idx(stored0, details@[jj].0@)
                } else {
                    stored0.len() as int
                };
                lemma_details_from_step(stored0, entry.details.entries@, details@, idx0, jj);
                lemma_upsert_keys(stored0, entry.details.entries@, details@[jj].0@, idx0);
                assert forall|j: int|
                    0 <= j < di implies #[trigger] has_key(
                        entry.details.entries@,
                        details@[j].0@,
                    ) by {
                    if j < jj {
                        assert(has_key(stored0, details@[j].0@));
                    }
                }
            }
        }
        let ghost snap = entry;
        let ghost pre = *self;
        self.log_event(entry);
        proof {
            if pre.enabled && pre.max_buffer_size >= 1 {
                let P = pre.security_patterns.client_patterns@;
                reveal_strlit("success");
                reveal_strlit("failure");
                assert("success"@.len() == 7 && "failure"@.len() == 7);
                assert("success"@[0] == 's' && "failure"@[0] == 'f');
                assert("success"@ != "failure"@);
                assert(counts_as_failure(&snap) == !success);
                assert(!counts_as_suspicious(&snap));
                let adj = match snap.client_id {
                    None => 0u32,
                    Some(cid) => pattern_updated(
                        pattern_at(P, cid@, now_ms),
                        &snap,
                    ).pattern_score,
                };
                lemma_ring_shape(
                    pre.buffer@,
                    pre.max_buffer_size as int,
                    AuditLogEntry { risk_score: clamp_u32(snap.risk_score as int + adj as int), ..snap },
                    self.buffer@,
                );
            }
        }
    }

    /// Records a rate-limit denial as a medium-severity blocked event
    /// carrying the limit figures, each stored redacted; the risk score is
    /// the base of ten plus the pattern adjustment, and the earlier ring
    /// contents stay (minus the oldest event when over capacity).
    pub fn log_rate_limiting(
        &mut self,
        client_id: String,
        source_ip: Option<String>,
        limit_type: String,
        current_count: u32,
        limit: u32,
        now_ms: u64,
    )
        ensures
            !old(self).enabled ==> *final(self) == *old(self),
            final(self).enabled == old(self).enabled,
            old(self).enabled && old(self).max_buffer_size >= 1 ==> ({
                let P = old(self).security_patterns.client_patterns@;
                let e = final(self).buffer@.last();
                &&& final(self).buffer@.len() >= 1
                &&& e.event_type == SecurityEventType::RateLimiting
                &&& e.severity == EventSeverity::Medium
                &&& e.action@ == "rate_limit_exceeded"@
                &&& e.result@ == "blocked"@
                &&& e.timestamp_ms == now_ms
                &&& (e.client_id matches Some(c) && c@ == client_id@)
                &&& e.details.entries@.len() == 3
                &&& e.details.entries@[0].0@ == "limit_type"@
                &&& e.details.entries@[0].1@ == redact_spec(limit_type@)
                &&& e.details.entries@[1].0@ == "current_count"@
                &&& e.details.entries@[1].1@ == redact_spec(dec_of(current_count as int))
                &&& e.details.entries@[2].0@ == "limit"@
                &&& e.details.entries@[2].1@ == redact_spec(dec_of(limit as int))
                &&& e.risk_score == clamp_u32(
                    10 + event_adjustment(P, client_id@, now_ms, false, false) as int,
                )
                &&& final(self).buffer@.len() == (if old(self).buffer@.len() + 1 > old(
                    self,
                ).max_buffer_size as int {
                    old(self).buffer@.len()
                } else {
                    old(self).buffer@.len() + 1
                })
                &&& final(self).buffer@.drop_last() == (if old(self).buffer@.len() + 1 > old(
                    self,
                ).max_buffer_size as int {
                    old(self).buffer@.drop_first()
                } else {
                    old(self).buffer@
                })
            }),
    {
        proof {
            reveal_strlit("limit_type");
            reveal_strlit("current_count");
            reveal_strlit("limit");
        }
        let ghost k = client_id@;
        let e1 = AuditLogEntry::new(
            SecurityEventType::RateLimiting,
            EventSeverity::Medium,
            String::from_str("rate_limit_exceeded"),
            now_ms,
        ).with_client_id(client_id).with_result(String::from_str("blocked"));
        let e2 = e1.with_detail(String::from_str("limit_type"), limit_type);
        proof {
            lemma_key_idx_from_props(e1.details.entries@, "limit_type"@, 0);
            assert(e2.details.entries@.len() == 1);
        }
        let e3 = e2.with_detail(String::from_str("current_count"), u32_to_string(current_count));
        proof {
            lemma_key_idx_from_props(e2.details.entries@, "current_count"@, 0);
            assert(e2.details.entries@[0].0@ == "limit_type"@);
            assert("limit_type"@.len() == 10 && "current_count"@.len() == 13);
            assert("limit_type"@ != "current_count"@);
            assert(!has_key(e2.details.entries@, "current_count"@));
            assert(e3.details.entries@.len() == 2);
            assert(e3.details.entries@[0] == e2.details.entries@[0]);
        }
        let e4 = e3.with_detail(String::from_str("limit"), u32_to_string(limit));
        proof {
            reveal_strlit("limit_type");
            reveal_strlit("current_count");
            reveal_strlit("limit");
            lemma_key_idx_from_props(e3.details.entries@, "limit"@, 0);
            assert(e3.details.entries@[0].0@ == "limit_type"@);
            assert(e3.details.entries@[1].0@ == "current_count"@);
            assert("limit"@.len() == 5 && "limit_type"@.len() == 10 && "current_count"@.len()
                == 13);
            assert("limit_type"@ != "limit"@ && "current_count"@ != "limit"@);
            assert(!has_key(e3.details.entries@, "limit"@));
            assert(e4.details.entries@.len() == 3);
            assert(e4.details.entries@[0] == e3.details.entries@[0]);
            assert(e4.details.entries@[1] == e3.details.entries@[1]);
        }
        let mut entry = e4.with_risk_score(10);
        match source_ip {
            Some(ip) => {
                entry = entry.with_source_ip(ip);
            },
            None => (),
        }
        let ghost snap = entry;
        let ghost pre = *self;
        self.log_event(entry);
        proof {
            if pre.enabled && pre.max_buffer_size >= 1 {
                let P = pre.security_patterns.client_patterns@;
                let adj = pattern_updated(pattern_at(P, k, now_ms), &snap).pattern_score;
                assert(!counts_as_failure(&snap));
                assert(!counts_as_suspicious(&snap));
                assert(adj == event_adjustment(P, k, now_ms, false, false));
                lemma_ring_shape(
                    pre.buffer@,
                    pre.max_buffer_size as int,
                    AuditLogEntry { risk_score: clamp_u32(snap.risk_score as int + adj as int), ..snap },
                    self.buffer@,
                );
            }
        }
    }

    /// Records a rejected input as a medium-severity validation failure with
    /// the field and the error stored redacted; the risk score is the base
    /// of fifteen plus the pattern adjustment, and the earlier ring contents
    /// stay (minus the oldest event when over capacity).
    pub fn log_validation_failure(
        &mut self,
        client_id: Option<String>,
        source_ip: Option<String>,
        field: String,
        error: String,
        now_ms: u64,
    )
        ensures
            !old(self).enabled ==> *final(self) == *old(self),
            final(self).enabled == old(self).enabled,
            old(self).enabled && old(self).max_buffer_size >= 1 ==> ({
                let P = old(self).security_patterns.client_patterns@;
                let e = final(self).buffer@.last();
                &&& final(self).buffer@.len() >= 1
                &&& e.event_type == SecurityEventType::InputValidation
                &&& e.severity == EventSeverity::Medium
                &&& e.action@ == "input_validation_failed"@
                &&& e.result@ == "rejected"@
                &&& e.timestamp_ms == now_ms
                &&& (client_id matches Some(c) ==> e.client_id matches Some(ec) && ec@ == c@)
                &&& e.details.entries@.len() == 2
                &&& e.details.entries@[0].0@ == "field"@
                &&& e.details.entries@[0].1@ == redact_spec(field@)
                &&& e.details.entries@[1].0@ == "error"@
                &&& e.details.entries@[1].1@ == redact_spec(error@)
                &&& (client_id matches Some(c) ==> e.risk_score == clamp_u32(
                    15 + event_adjustment(P, c@, now_ms, false, true) as int,
                ))
                &&& (client_id is None ==> e.risk_score == 15)
                &&& final(self).buffer@.len() == (if old(self).buffer@.len() + 1 > old(
                    self,
                ).max_buffer_size as int {
                    old(self).buffer@.len()
                } else {
                    old(self).buffer@.len() + 1
                })
                &&& final(self).buffer@.drop_last() == (if old(self).buffer@.len() + 1 > old(
                    self,
                ).max_buffer_size as int {
                    old(self).buffer@.drop_first()
                } else {
                    old(self).buffer@
                })
            }),
    {
        let e1 = AuditLogEntry::new(
            SecurityEventType::InputValidation,
            EventSeverity::Medium,
            String::from_str("input_validation_failed"),
            now_ms,
        ).with_result(String::from_str("rejected"));
        let e2 = e1.with_detail(String::from_str("field"), field);
        proof {
            lemma_key_idx_from_props(e1.details.entries@, "field"@, 0);
            assert(e2.details.entries@.len() == 1);
        }
        let e3 = e2.with_detail(String::from_str("error"), error);
        proof {
            reveal_strlit("field");
            reveal_strlit("error");
            lemma_key_idx_from_props(e2.details.entries@, "error"@, 0);
            assert(e2.details.entries@[0].0@ == "field"@);
            assert("field"@.len() == 5 && "error"@.len() == 5);
            assert("field"@[0] == 'f' && "error"@[0] == 'e');
            assert("field"@ != "error"@);
            assert(!has_key(e2.details.entries@, "error"@));
            assert(e3.details.entries@.len() == 2);
            assert(e3.details.entries@[0] == e2.details.entries@[0]);
        }
        let mut entry = e3.with_risk_score(15);
        match client_id {
            Some(cid) => {
                entry = entry.with_client_id(cid);
            },
            None => (),
        }
        match source_ip {
            Some(ip) => {
                entry = entry.with_source_ip(ip);
            },
            None => (),
        }
        let ghost snap = entry;
        let ghost pre = *self;
        self.log_event(entry);
        proof {
            if pre.enabled && pre.max_buffer_size >= 1 {
                let P = pre.security_patterns.client_patterns@;
                assert(!counts_as_failure(&snap));
                assert(counts_as_suspicious(&snap));
                let adj = match snap.client_id {
                    None => 0u32,
                    Some(cid) => pattern_updated(
                        pattern_at(P, cid@, now_ms),
                        &snap,
                    ).pattern_score,
                };
                lemma_ring_shape(
                    pre.buffer@,
                    pre.max_buffer_size as int,
                    AuditLogEntry { risk_score: clamp_u32(snap.risk_score as int + adj as int), ..snap },
                    self.buffer@,
                );
            }
        }
    }

    /// Records suspicious activity at a severity graded by the risk score.
    pub fn log_suspicious_activity(
        &mut self,
        client_id: String,
        source_ip: Option<String>,
        activity_type: String,
        risk_score: u32,
        details: Vec<(String, String)>,
        now_ms: u64,
    )
        ensures
            !old(self).enabled ==> *final(self) == *old(self),
            final(self).enabled == old(self).enabled,
            old(self).enabled && old(self).max_buffer_size >= 1 ==> ({
                let P = old(self).security_patterns.client_patterns@;
                let e = final(self).buffer@.last();
                &&& final(self).buffer@.len() >= 1
                &&& e.event_type == SecurityEventType::SuspiciousActivity
                &&& e.severity == (if risk_score <= 25 {
                    EventSeverity::Low
                } else if risk_score <= 50 {
                    EventSeverity::Medium
                } else if risk_score <= 75 {
                    EventSeverity::High
                } else {
                    EventSeverity::Critical
                })
                &&& e.result@ == "detected"@
                &&& e.timestamp_ms == now_ms
                &&& (e.client_id matches Some(c) && c@ == client_id@)
                &&& details_from(e.details.entries@, details@)
                &&& e.details.entries@.len() <= details@.len()
                &&& (forall|j: int|
                    0 <= j < details@.len() ==> #[trigger] has_key(
                        e.details.entries@,
                        details@[j].0@,
                    ))
                &&& e.risk_score == clamp_u32(
                    risk_score + event_adjustment(P, client_id@, now_ms, false, true) as int,
                )
                &&& final(self).buffer@.len() == (if old(self).buffer@.len() + 1 > old(
                    self,
                ).max_buffer_size as int {
                    old(self).buffer@.len()
                } else {
                    old(self).buffer@.len() + 1
                })
                &&& final(self).buffer@.drop_last() == (if old(self).buffer@.len() + 1 > old(
                    self,
                ).max_buffer_size as int {
                    old(self).buffer@.drop_first()
                } else {
                    old(self).buffer@
                })
            }),
    {
        let severity = if risk_score <= 25 {
            EventSeverity::Low
        } else if risk_score <= 50 {
            EventSeverity::Medium
        } else if risk_score <= 75 {
            EventSeverity::High
        } else {
            EventSeverity::Critical
        };
        let mut action = String::from_str("suspicious_activity_");
        action.append(activity_type.as_str());
        let mut entry = AuditLogEntry::new(
            SecurityEventType::SuspiciousActivity,
            severity,
            action,
            now_ms,
        ).with_client_id(client_id).with_result(String::from_str("detected")).with_risk_score(
            risk_score,
        );
        match source_ip {
            Some(ip) => {
                entry = entry.with_source_ip(ip);
            },
            None => (),
        }
        let dlen = details.len();
        let ghost details0 = details@;
        let mut di: usize = 0;
        let mut rest = details;
        while rest.len() > 0
            invariant
                rest@.len() + di == dlen,
                dlen == details0.len(),
                forall|j: int| 0 <= j < rest@.len() ==> rest@[j] == details0[di + j],
                details_from(entry.details.entries@, details0),
                entry.details.entries@.len() <= di,
                forall|j: int|
                    0 <= j < di ==> #[trigger] has_key(entry.details.entries@, details0[j].0@),
                entry.risk_score == risk_score,
                entry.event_type == SecurityEventType::SuspiciousActivity,
                entry.severity == (if risk_score <= 25 {
                    EventSeverity::Low
                } else if risk_score <= 50 {
                    EventSeverity::Medium
                } else if risk_score <= 75 {
                    EventSeverity::High
                } else {
                    EventSeverity::Critical
                }),
                entry.result@ == "detected"@,
                entry.timestamp_ms == now_ms,
                entry.client_id matches Some(c) && c@ == client_id@,
                *self == *old(self),
            decreases rest@.len(),
        {
            let ghost stored0 = entry.details.entries@;
            let pair = rest.remove(0);
            let ghost jj = di as int;
            entry = entry.with_detail(pair.0, pair.1);
            di = di + 1;
            proof {
                let idx0 = if has_key(stored0, details0[jj].0@) {
                    key_idx(stored0, details0[jj].0@)
                } else {
                    stored0.len() as int
                };
                lemma_details_from_step(stored0, entry.details.entries@, details0, idx0, jj);
                lemma_upsert_keys(stored0, entry.details.entries@, details0[jj].0@, idx0);
                assert forall|j: int|
                    0 <= j < di implies #[trigger] has_key(
                        entry.details.entries@,
                        details0[j].0@,
                    ) by {
                    if j < jj {
                        assert(has_key(stored0, details0[j].0@));
                    }
                }
            }
        }
        let ghost snap = entry;
        let ghost pre = *self;
        self.log_event(entry);
        proof {
            if pre.enabled && pre.max_buffer_size >= 1 {
                let P = pre.security_patterns.client_patterns@;
                assert(!counts_as_failure(&snap));
                assert(counts_as_suspicious(&snap));
                let adj = pattern_updated(
                    pattern_at(P, client_id@, now_ms),
                    &snap,
                ).pattern_score;
                lemma_ring_shape(
                    pre.buffer@,
                    pre.max_buffer_size as int,
                    AuditLogEntry { risk_score: clamp_u32(snap.risk_score as int + adj as int), ..snap },
                    self.buffer@,
                );
            }
        }
    }

    /// Records a data access as an informational event with no stored
    /// details; the risk score is the pattern adjustment alone, and the
    /// earlier ring contents stay (minus the oldest event when over
    /// capacity).
    pub fn log_data_access(
        &mut self,
        client_id: Option<String>,
        source_ip: Option<String>,
        method: String,
        resource: String,
        success: bool,
        now_ms: u64,
    )
        ensures
            !old(self).enabled ==> *final(self) == *old(self),
            final(self).enabled == old(self).enabled,
            old(self).enabled && old(self).max_buffer_size >= 1 ==> ({
                let P = old(self).security_patterns.client_patterns@;
                let e = final(self).buffer@.last();
                &&& final(self).buffer@.len() >= 1
                &&& e.event_type == SecurityEventType::DataAccess
                &&& e.severity == EventSeverity::Info
                &&& e.action@ == "data_access"@
                &&& e.result@ == if success {
                    "success"@
                } else {
                    "failure"@
                }
                &&& e.method matches Some(m) && m@ == method@
                &&& e.resource matches Some(rs) && rs@ == resource@
                &&& e.timestamp_ms == now_ms
                &&& (client_id matches Some(c) ==> e.client_id matches Some(ec) && ec@ == c@)
                &&& e.details.entries@.len() == 0
                &&& (client_id matches Some(c) ==> e.risk_score == clamp_u32(
                    event_adjustment(P, c@, now_ms, false, false) as int,
                ))
                &&& (client_id is None ==> e.risk_score == 0)
                &&& final(self).buffer@.len() == (if old(self).buffer@.len() + 1 > old(
                    self,
                ).max_buffer_size as int {
                    old(self).buffer@.len()
                } else {
                    old(self).buffer@.len() + 1
                })
                &&& final(self).buffer@.drop_last() == (if old(self).buffer@.len() + 1 > old(
                    self,
                ).max_buffer_size as int {
                    old(self).buffer@.drop_first()
                } else {
                    old(self).buffer@
                })
            }),
    {
        let result = if success {
            String::from_str("success")
        } else {
            String::from_str("failure")
        };
        let mut entry = AuditLogEntry::new(
            SecurityEventType::DataAccess,
            EventSeverity::Info,
            String::from_str("data_access"),
            now_ms,
        ).with_method(method).with_resource(resource).with_result(result);
        match client_id {
            Some(cid) => {
                entry = entry.with_client_id(cid);
            },
            None => (),
        }
        match source_ip {
            Some(ip) => {
                entry = entry.with_source_ip(ip);
            },
            None => (),
        }
        let ghost snap = entry;
        let ghost pre = *self;
        self.log_event(entry);
        proof {
            if pre.enabled && pre.max_buffer_size >= 1 {
                let P = pre.security_patterns.client_patterns@;
                assert(!counts_as_failure(&snap));
                assert(!counts_as_suspicious(&snap));
                let adj = match snap.client_id {
                    None => 0u32,
                    Some(cid) => pattern_updated(
                        pattern_at(P, cid@, now_ms),
                        &snap,
                    ).pattern_score,
                };
                lemma_ring_shape(
                    pre.buffer@,
                    pre.max_buffer_size as int,
                    AuditLogEntry { risk_score: clamp_u32(snap.risk_score as int + adj as int), ..snap },
                    self.buffer@,
                );
            }
        }
    }
}

/// Number of buffered events of the given type, from `i` on.
pub open spec fn count_type(b: Seq<AuditLogEntry>, t: SecurityEventType, i: int) -> int
    decreases b.len() - i when 0 <= i <= b.len()
{
    if i >= b.len() {
        0
    } else {
        (if b[i].event_type == t {
            1int
        } else {
            0int
        }) + count_type(b, t, i + 1)
    }
}

/// Number of buffered events of the given severity, from `i` on.
pub open spec fn count_severity(b: Seq<AuditLogEntry>, s: EventSeverity, i: int) -> int
    decreases b.len() - i when 0 <= i <= b.len()
{
    if i >= b.len() {
        0
    } else {
        (if b[i].severity == s {
            1int
        } else {
            0int
        }) + count_severity(b, s, i + 1)
    }
}

/// Sum of the risk scores of the buffered events, from `i` on.
pub open spec fn sum_risk(b: Seq<AuditLogEntry>, i: int) -> int
    decreases b.len() - i when 0 <= i <= b.len()
{
    if i >= b.len() {
        0
    } else {
        b[i].risk_score + sum_risk(b, i + 1)
    }
}

/// Number of buffered events with a risk score above the deny threshold.
pub open spec fn count_high_risk(b: Seq<AuditLogEntry>, i: int) -> int
    decreases b.len() - i when 0 <= i <= b.len()
{
    if i >= b.len() {
        0
    } else {
        (if b[i].risk_score > 50 {
            1int
        } else {
            0int
        }) + count_high_risk(b, i + 1)
    }
}

/// Number of tracked clients whose pattern score is high.
pub open spec fn count_high_risk_clients(P: Seq<(String, ClientPattern)>, i: int) -> int
    decreases P.len() - i when 0 <= i <= P.len()
{
    if i >= P.len() {
        0
    } else {
        (if P[i].1.pattern_score > 15 {
            1int
        } else {
            0int
        }) + count_high_risk_clients(P, i + 1)
    }
}

/// Sums of the failed-attempt and suspicious-activity tallies.
pub open spec fn sum_failed(P: Seq<(String, ClientPattern)>, i: int) -> int
    decreases P.len() - i when 0 <= i <= P.len()
{
    if i >= P.len() {
        0
    } else {
        P[i].1.failed_attempts + sum_failed(P, i + 1)
    }
}

pub open spec fn sum_suspicious(P: Seq<(String, ClientPattern)>, i: int) -> int
    decreases P.len() - i when 0 <= i <= P.len()
{
    if i >= P.len() {
        0
    } else {
        P[i].1.suspicious_activities + sum_suspicious(P, i + 1)
    }
}

/// Aggregates over the audit ring and the behavioral patterns.
pub struct SecuritySummary {
    pub total_events: usize,
    pub total_risk_score: u64,
    pub high_risk_events: usize,
    pub clients_tracked: usize,
    pub high_risk_clients: usize,
    pub total_failed_attempts: u64,
    pub total_suspicious_activities: u64,
    pub enabled: bool,
}

impl SecurityAuditor {
    /// How many buffered events carry the given type.
    #[verifier::loop_isolation(false)]
    pub fn count_events_of_type(&self, t: SecurityEventType) -> (r: usize)
        ensures
            r == count_type(self.buffer@, t, 0),
    {
        let mut count: usize = 0;
        let mut i: usize = 0;
        while i < self.buffer.len()
            invariant
                0 <= i <= self.buffer@.len(),
                count <= i,
                count_type(self.buffer@, t, 0) == count + count_type(self.buffer@, t, i as int),
            decreases self.buffer@.len() - i,
        {
            let matches_t = match (self.buffer[i].event_type, t) {
                (SecurityEventType::Authentication, SecurityEventType::Authentication) => true,
                (SecurityEventType::Authorization, SecurityEventType::Authorization) => true,
                (SecurityEventType::RateLimiting, SecurityEventType::RateLimiting) => true,
                (SecurityEventType::InputValidation, SecurityEventType::InputValidation) => true,
                (
                    SecurityEventType::SuspiciousActivity,
                    SecurityEventType::SuspiciousActivity,
                ) => true,
                (SecurityEventType::DataAccess, SecurityEventType::DataAccess) => true,
                (
                    SecurityEventType::ConfigurationChange,
                    SecurityEventType::ConfigurationChange,
                ) => true,
                (SecurityEventType::SecurityViolation, SecurityEventType::SecurityViolation) => true,
                (SecurityEventType::SystemAccess, SecurityEventType::SystemAccess) => true,
                _ => false,
            };
            if matches_t {
                count = count + 1;
            }
            i = i + 1;
        }
        count
    }

    /// How many buffered events carry the given severity.
    #[verifier::loop_isolation(false)]
    pub fn count_events_of_severity(&self, s: EventSeverity) -> (r: usize)
        ensures
            r == count_severity(self.buffer@, s, 0),
    {
        let mut count: usize = 0;
        let mut i: usize = 0;
        while i < self.buffer.len()
            invariant
                0 <= i <= self.buffer@.len(),
                count <= i,
                count_severity(self.buffer@, s, 0) == count + count_severity(
                    self.buffer@,
                    s,
                    i as int,
                ),
            decreases self.buffer@.len() - i,
        {
            let matches_s = match (self.buffer[i].severity, s) {
                (EventSeverity::Critical, EventSeverity::Critical) => true,
                (EventSeverity::High, EventSeverity::High) => true,
                (EventSeverity::Medium, EventSeverity::Medium) => true,
                (EventSeverity::Low, EventSeverity::Low) => true,
                (EventSeverity::Info, EventSeverity::Info) => true,
                _ => false,
            };
            if matches_s {
                count = count + 1;
            }
            i = i + 1;
        }
        count
    }

    /// Counts and risk aggregates over the ring, and the behavioral
    /// aggregates over the tracked clients.
    #[verifier::loop_isolation(false)]
    pub fn generate_security_summary(&self) -> (r: SecuritySummary)
        ensures
            r.total_events == self.buffer@.len(),
            r.total_risk_score == crate::rate_limiter::clamp_u64(sum_risk(self.buffer@, 0)),
            r.high_risk_events == count_high_risk(self.buffer@, 0),
            r.clients_tracked == self.security_patterns.client_patterns@.len(),
            r.high_risk_clients == count_high_risk_clients(
                self.security_patterns.client_patterns@,
                0,
            ),
            r.total_failed_attempts == crate::rate_limiter::clamp_u64(
                sum_failed(self.security_patterns.client_patterns@, 0),
            ),
            r.total_suspicious_activities == crate::rate_limiter::clamp_u64(
                sum_suspicious(self.security_patterns.client_patterns@, 0),
            ),
            r.enabled == self.enabled,
    {
        let mut risk: u64 = 0;
        let mut high: usize = 0;
        let mut i: usize = 0;
        proof {
            lemma_risk_sums_nonneg(self.buffer@, 0);
        }
        while i < self.buffer.len()
            invariant
                0 <= i <= self.buffer@.len(),
                high <= i,
                risk == crate::rate_limiter::clamp_u64(
                    sum_risk(self.buffer@, 0) - sum_risk(self.buffer@, i as int),
                ),
                high == count_high_risk(self.buffer@, 0) - count_high_risk(
                    self.buffer@,
                    i as int,
                ),
            decreases self.buffer@.len() - i,
        {
            proof {
                lemma_risk_sums_nonneg(self.buffer@, i as int);
                lemma_risk_sums_nonneg(self.buffer@, i + 1);
                lemma_risk_prefix(self.buffer@, i as int);
                lemma_risk_prefix(self.buffer@, i + 1);
                lemma_high_risk_bounds(self.buffer@, i as int);
            }
            risk = risk.saturating_add(self.buffer[i].risk_score as u64);
            if self.buffer[i].risk_score > 50 {
                high = high + 1;
            }
            i = i + 1;
        }
        let mut failed: u64 = 0;
        let mut susp: u64 = 0;
        let mut hc: usize = 0;
        let mut j: usize = 0;
        let patterns = &self.security_patterns.client_patterns;
        proof {
            lemma_pattern_sums_nonneg(patterns@, 0);
        }
        while j < patterns.len()
            invariant
                0 <= j <= patterns@.len(),
                hc <= j,
                failed == crate::rate_limiter::clamp_u64(
                    sum_failed(patterns@, 0) - sum_failed(patterns@, j as int),
                ),
                susp == crate::rate_limiter::clamp_u64(
                    sum_suspicious(patterns@, 0) - sum_suspicious(patterns@, j as int),
                ),
                hc == count_high_risk_clients(patterns@, 0) - count_high_risk_clients(
                    patterns@,
                    j as int,
                ),
            decreases patterns@.len() - j,
        {
            proof {
                lemma_pattern_sums_nonneg(patterns@, j as int);
                lemma_pattern_sums_nonneg(patterns@, j + 1);
                lemma_pattern_prefix(patterns@, j as int);
                lemma_pattern_prefix(patterns@, j + 1);
                lemma_high_client_bounds(patterns@, j as int);
            }
            failed = failed.saturating_add(patterns[j].1.failed_attempts as u64);
            susp = susp.saturating_add(patterns[j].1.suspicious_activities as u64);
            if patterns[j].1.pattern_score > 15 {
                hc = hc + 1;
            }
            j = j + 1;
        }
        proof {
            assert(sum_risk(self.buffer@, i as int) == 0);
            assert(count_high_risk(self.buffer@, i as int) == 0);
            assert(sum_failed(patterns@, j as int) == 0);
            assert(sum_suspicious(patterns@, j as int) == 0);
            assert(count_high_risk_clients(patterns@, j as int) == 0);
        }
        SecuritySummary {
            total_events: self.buffer.len(),
            total_risk_score: risk,
            high_risk_events: high,
            clients_tracked: patterns.len(),
            high_risk_clients: hc,
            total_failed_attempts: failed,
            total_suspicious_activities: susp,
            enabled: self.enabled,
        }
    }
}

proof fn lemma_risk_sums_nonneg(b: Seq<AuditLogEntry>, i: int)
    requires
        0 <= i <= b.len(),
    ensures
        sum_risk(b, i) >= 0,
        0 <= count_high_risk(b, i) <= b.len() - i,
    decreases b.len() - i,
{
    if i < b.len() {
        lemma_risk_sums_nonneg(b, i + 1);
    }
}

proof fn lemma_risk_prefix(b: Seq<AuditLogEntry>, i: int)
    requires
        0 <= i <= b.len(),
    ensures
        sum_risk(b, 0) >= sum_risk(b, i),
        count_high_risk(b, 0) >= count_high_risk(b, i),
    decreases i,
{
    if i > 0 {
        lemma_risk_prefix(b, i - 1);
        lemma_risk_sums_nonneg(b, i);
    }
}

proof fn lemma_high_risk_bounds(b: Seq<AuditLogEntry>, i: int)
    requires
        0 <= i < b.len(),
    ensures
        count_high_risk(b, i) == (if b[i].risk_score > 50 {
            1int
        } else {
            0int
        }) + count_high_risk(b, i + 1),
        sum_risk(b, i) == b[i].risk_score + sum_risk(b, i + 1),
{
}

proof fn lemma_pattern_sums_nonneg(P: Seq<(String, ClientPattern)>, i: int)
    requires
        0 <= i <= P.len(),
    ensures
        sum_failed(P, i) >= 0,
        sum_suspicious(P, i) >= 0,
        0 <= count_high_risk_clients(P, i) <= P.len() - i,
    decreases P.len() - i,
{
    if i < P.len() {
        lemma_pattern_sums_nonneg(P, i + 1);
    }
}

proof fn lemma_pattern_prefix(P: Seq<(String, ClientPattern)>, i: int)
    requires
        0 <= i <= P.len(),
    ensures
        sum_failed(P, 0) >= sum_failed(P, i),
        sum_suspicious(P, 0) >= sum_suspicious(P, i),
        count_high_risk_clients(P, 0) >= count_high_risk_clients(P, i),
    decreases i,
{
    if i > 0 {
        lemma_pattern_prefix(P, i - 1);
        lemma_pattern_sums_nonneg(P, i);
    }
}

proof fn lemma_high_client_bounds(P: Seq<(String, ClientPattern)>, i: int)
    requires
        0 <= i < P.len(),
    ensures
        count_high_risk_clients(P, i) == (if P[i].1.pattern_score > 15 {
            1int
        } else {
            0int
        }) + count_high_risk_clients(P, i + 1),
        sum_failed(P, i) == P[i].1.failed_attempts + sum_failed(P, i + 1),
        sum_suspicious(P, i) == P[i].1.suspicious_activities + sum_suspicious(P, i + 1),
{
}

} // verus!
