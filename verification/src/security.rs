//! Secret handling and error sanitization: credentials are validated against
//! a fixed format and retained only as a hash, and error text is scrubbed of
//! credential assignments, file paths, mail addresses and IPv4 addresses
//! before it crosses the trust boundary.

use crate::redact::{replace_pat, replace_pat_all, Pat};
use crate::text::{
    is_alpha_char, is_digit_char, new_uuid_string, str_chars, chars_to_string,
};
use vstd::prelude::*;

verus! {

/// A credential the gateway refuses, and why.
#[derive(Debug, PartialEq, Eq, Structural)]
pub enum SecretError {
    /// The credential does not fit the accepted shape.
    InvalidKeyFormat,
}

/// Secure configuration with secret protection.
pub struct SecurityConfig {
    pub api_key_hash: String,
    pub max_request_size: usize,
    pub allowed_origins: Vec<String>,
    pub rate_limit_enabled: bool,
    pub audit_logging_enabled: bool,
    pub error_details_in_prod: bool,
}

impl SecurityConfig {
    /// The stock security configuration.
    pub fn new() -> (r: SecurityConfig)
        ensures
            r.api_key_hash@ == Seq::<char>::empty(),
            r.max_request_size == 1048576,
            r.allowed_origins@.len() == 1 && r.allowed_origins@[0]@ == "http://localhost:3000"@,
            r.rate_limit_enabled,
            r.audit_logging_enabled,
            !r.error_details_in_prod,
    {
        let mut origins: Vec<String> = Vec::new();
        origins.push(String::from_str("http://localhost:3000"));
        proof {
            reveal_strlit("");
        }
        SecurityConfig {
            api_key_hash: String::from_str(""),
            max_request_size: 1048576,
            allowed_origins: origins,
            rate_limit_enabled: true,
            audit_logging_enabled: true,
            error_details_in_prod: false,
        }
    }
}

/// The digest that ring's SHA-256 assigns to a string; it depends on the
/// characters alone.
pub uninterp spec fn ring_sha256_of(s: Seq<char>) -> Seq<u8>;

/// Relies on ring::digest::digest with SHA-256: a 32-byte digest that
/// depends on the input alone.
#[verifier::external_body]
fn ring_sha256(s: &str) -> (r: Vec<u8>)
    ensures
        r@ == ring_sha256_of(s@),
        r@.len() == 32,
{
    ring::digest::digest(&ring::digest::SHA256, s.as_bytes()).as_ref().to_vec()
}

/// The standard base64 form of a byte string; it depends on the bytes alone.
pub uninterp spec fn b64_of(b: Seq<u8>) -> Seq<char>;

/// Relies on base64's standard engine: four output characters for every
/// three input bytes, padded; the text depends on the bytes alone.
#[verifier::external_body]
fn b64_encode(b: &Vec<u8>) -> (r: String)
    ensures
        r@ == b64_of(b@),
        r@.len() == 4 * ((b@.len() + 2) / 3),
{
    base64::Engine::encode(&base64::engine::general_purpose::STANDARD, b)
}

/// A character allowed in a credential.
pub open spec fn is_key_char(c: char) -> bool {
    is_alpha_char(c) || is_digit_char(c) || c == '_' || c == '-'
}

/// The accepted credential shape: 32 to 128 letters, digits, underscores and
/// hyphens.
pub open spec fn valid_key_format(s: Seq<char>) -> bool {
    32 <= s.len() <= 128 && forall|i: int| 0 <= i < s.len() ==> is_key_char(#[trigger] s[i])
}

/// Checks a credential against the accepted shape.
#[verifier::loop_isolation(false)]
fn check_key_format(s: &str) -> (r: bool)
    ensures
        r == valid_key_format(s@),
{
    let v = str_chars(s);
    if v.len() < 32 || v.len() > 128 {
        return false;
    }
    let mut i: usize = 0;
    while i < v.len()
        invariant
            0 <= i <= v@.len(),
            forall|k: int| 0 <= k < i ==> is_key_char(#[trigger] v@[k]),
        decreases v@.len() - i,
    {
        let c = v[i];
        let ok = ('a' <= c && c <= 'z') || ('A' <= c && c <= 'Z') || ('0' <= c && c <= '9') || c
            == '_' || c == '-';
        if !ok {
            return false;
        }
        i = i + 1;
    }
    true
}

/// Holds only the hash of the configured credential, never the plaintext.
pub struct ApiKeyManager {
    pub key_hash: String,
}

impl ApiKeyManager {
    /// Accepts a credential exactly when it fits the accepted shape, and
    /// retains only the base64 form of its digest.
    pub fn new(api_key: &str) -> (r: Result<ApiKeyManager, SecretError>)
        ensures
            r is Ok <==> valid_key_format(api_key@),
            r matches Ok(m) ==> m.key_hash@ == b64_of(ring_sha256_of(api_key@)),
            r is Err ==> r == Result::<ApiKeyManager, SecretError>::Err(
                SecretError::InvalidKeyFormat,
            ),
    {
        if !check_key_format(api_key) {
            return Err(SecretError::InvalidKeyFormat);
        }
        let digest = ring_sha256(api_key);
        Ok(ApiKeyManager { key_hash: b64_encode(&digest) })
    }

    /// Hashes the candidate and compares against the stored hash; neither
    /// value is exposed.  The comparison visits every character with no
    /// early exit, so its timing does not depend on where the hashes differ.
    pub fn validate_key(&self, provided_key: &str) -> (r: bool)
        ensures
            r == (b64_of(ring_sha256_of(provided_key@)) == self.key_hash@),
    {
        let digest = ring_sha256(provided_key);
        let provided_hash = b64_encode(&digest);
        let a = str_chars(provided_hash.as_str());
        let b = str_chars(self.key_hash.as_str());
        eq_all_chars(&a, &b)
    }
}

/// Compares two character vectors by visiting every position of both, with
/// no early exit on a mismatch.
#[verifier::loop_isolation(false)]
fn eq_all_chars(a: &Vec<char>, b: &Vec<char>) -> (r: bool)
    ensures
        r == (a@ == b@),
{
    if a.len() != b.len() {
        assert(a@ != b@);
        return false;
    }
    let mut same = true;
    let mut i: usize = 0;
    while i < a.len()
        invariant
            a@.len() == b@.len(),
            0 <= i <= a@.len(),
            same == (forall|k: int| 0 <= k < i ==> a@[k] == b@[k]),
        decreases a@.len() - i,
    {
        same = same && (a[i] == b[i]);
        i = i + 1;
    }
    proof {
        if same {
            assert(a@ =~= b@);
        }
    }
    same
}

pub open spec fn ph_redacted() -> Seq<char> {
    seq!['[', 'R', 'E', 'D', 'A', 'C', 'T', 'E', 'D', ']']
}

/// The scrubbed form of an error message: ordered substitution passes over
/// credential assignments, file paths, mail addresses and IPv4 addresses,
/// each match replaced by one uniform marker.
pub open spec fn err_redact_spec(s: Seq<char>) -> Seq<char> {
    let s1 = replace_pat_all(s, Pat::ApiKey, ph_redacted());
    let s2 = replace_pat_all(s1, Pat::Token, ph_redacted());
    let s3 = replace_pat_all(s2, Pat::Password, ph_redacted());
    let s4 = replace_pat_all(s3, Pat::Secret, ph_redacted());
    let s5 = replace_pat_all(s4, Pat::FilePath, ph_redacted());
    let s6 = replace_pat_all(s5, Pat::Email, ph_redacted());
    replace_pat_all(s6, Pat::Ip, ph_redacted())
}

/// Scrubs credential assignments, file paths, mail addresses and IPv4
/// addresses out of an error message.
pub fn sanitize_error_message(message: &str) -> (r: String)
    ensures
        r@ == err_redact_spec(message@),
{
    let ph: Vec<char> = vec!['[', 'R', 'E', 'D', 'A', 'C', 'T', 'E', 'D', ']'];
    proof {
        assert(ph@ =~= ph_redacted());
    }
    let v = str_chars(message);
    let s1 = replace_pat(&v, Pat::ApiKey, &ph);
    let s2 = replace_pat(&s1, Pat::Token, &ph);
    let s3 = replace_pat(&s2, Pat::Password, &ph);
    let s4 = replace_pat(&s3, Pat::Secret, &ph);
    let s5 = replace_pat(&s4, Pat::FilePath, &ph);
    let s6 = replace_pat(&s5, Pat::Email, &ph);
    let s7 = replace_pat(&s6, Pat::Ip, &ph);
    chars_to_string(&s7)
}

/// What the error sanitizer hands to the caller: a generic message, and the
/// scrubbed detail only outside production.
pub struct SanitizedError {
    pub error: String,
    pub details: Option<String>,
    pub context: Option<String>,
    pub timestamp_ms: u64,
}

/// Secure error handler: the full error is for the internal log only; the
/// caller sees a generic message, with scrubbed detail outside production.
pub struct SecureErrorHandler {
    pub include_details: bool,
}

impl SecureErrorHandler {
    /// In production mode no details leave the trust boundary.
    pub fn new(production_mode: bool) -> (r: SecureErrorHandler)
        ensures
            r.include_details == !production_mode,
    {
        SecureErrorHandler { include_details: !production_mode }
    }

    /// The caller-visible form of an error: a generic message and the time,
    /// always, and the scrubbed detail with its context only when details
    /// are included.
    pub fn sanitize_error(&self, error_message: &str, context: &str, now_ms: u64) -> (r:
        SanitizedError)
        ensures
            r.error@ == "Request processing failed"@,
            r.timestamp_ms == now_ms,
            self.include_details ==> (r.details matches Some(d) && d@ == err_redact_spec(
                error_message@,
            )) && (r.context matches Some(c) && c@ == context@),
            !self.include_details ==> r.details is None && r.context is None,
    {
        if self.include_details {
            SanitizedError {
                error: String::from_str("Request processing failed"),
                details: Some(sanitize_error_message(error_message)),
                context: Some(String::from_str(context)),
                timestamp_ms: now_ms,
            }
        } else {
            SanitizedError {
                error: String::from_str("Request processing failed"),
                details: None,
                context: None,
                timestamp_ms: now_ms,
            }
        }
    }
}

/// Request context for security tracking.
pub struct SecurityContext {
    pub request_id: String,
    pub client_ip: Option<String>,
    pub user_agent: Option<String>,
    pub method: String,
    pub path: String,
    pub timestamp_ms: u64,
    pub authenticated: bool,
}

impl SecurityContext {
    /// A fresh unauthenticated context with a random request identifier.
    pub fn new(method: String, path: String, now_ms: u64) -> (r: SecurityContext)
        ensures
            r.request_id@.len() == 36,
            r.client_ip is None,
            r.user_agent is None,
            r.method == method,
            r.path == path,
            r.timestamp_ms == now_ms,
            !r.authenticated,
    {
        SecurityContext {
            request_id: new_uuid_string(),
            client_ip: None,
            user_agent: None,
            method,
            path,
            timestamp_ms: now_ms,
            authenticated: false,
        }
    }
}

} // verus!
