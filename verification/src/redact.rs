//! Redaction of sensitive substrings: credential assignments, bearer tokens,
//! mail addresses and IPv4 addresses are replaced by fixed placeholder tags,
//! and the result is truncated to a bounded length.
//!
//! Redaction runs as ordered substitution passes, one per pattern: each pass
//! scans the previous pass's output left to right and replaces every match
//! of its pattern by that pattern's placeholder, so a later pass sees the
//! placeholders of the earlier ones (an IPv4 address left adjacent to text
//! that an earlier pass masked is still recognized, since the bracket of the
//! placeholder is a word boundary).

use crate::text::{
    check_match_at, in_class, is_word, is_word_char, lemma_run_len_bound, match_at, measure_run,
    run_len, str_chars, chars_to_string, CharClass,
};
use vstd::prelude::*;

verus! {

/// Redacted output is cut to this many characters.
pub const REDACT_MAX_LEN: usize = 500;

pub open spec fn ph_api_key() -> Seq<char> {
    seq!['[', 'A', 'P', 'I', '_', 'K', 'E', 'Y', ']']
}

pub open spec fn ph_token() -> Seq<char> {
    seq!['[', 'T', 'O', 'K', 'E', 'N', ']']
}

pub open spec fn ph_password() -> Seq<char> {
    seq!['[', 'P', 'A', 'S', 'S', 'W', 'O', 'R', 'D', ']']
}

pub open spec fn ph_secret() -> Seq<char> {
    seq!['[', 'S', 'E', 'C', 'R', 'E', 'T', ']']
}

pub open spec fn ph_bearer() -> Seq<char> {
    seq!['[', 'B', 'E', 'A', 'R', 'E', 'R', '_', 'T', 'O', 'K', 'E', 'N', ']']
}

pub open spec fn ph_email() -> Seq<char> {
    seq!['[', 'E', 'M', 'A', 'I', 'L', ']']
}

pub open spec fn ph_ip() -> Seq<char> {
    seq!['[', 'I', 'P', '_', 'A', 'D', 'D', 'R', 'E', 'S', 'S', ']']
}

/// After a secret keyword: at least one separator, then at least one
/// non-space character, both runs maximal.  Returns 0 when there is no value.
pub open spec fn kw_tail_len(s: Seq<char>, i: int) -> nat
    recommends
        0 <= i <= s.len(),
{
    let sep = run_len(CharClass::KeySep, s, i);
    if sep == 0 {
        0
    } else {
        let val = run_len(CharClass::NonSpace, s, i + sep);
        if val == 0 {
            0
        } else {
            (sep + val) as nat
        }
    }
}

/// Length of a match of `<kw>[s]<seps><value>` at `i`, or 0.
pub open spec fn kw_match_len(s: Seq<char>, i: int, kw: Seq<char>) -> nat
    recommends
        0 <= i <= s.len(),
{
    if !match_at(s, kw, i) {
        0
    } else {
        let k = i + kw.len();
        let k2: int = if k < s.len() && s[k] == 's' {
            k + 1
        } else {
            k
        };
        let t = kw_tail_len(s, k2);
        if t == 0 {
            0
        } else {
            ((k2 - i) + t) as nat
        }
    }
}

pub open spec fn kw_api_underscore() -> Seq<char> {
    seq!['a', 'p', 'i', '_', 'k', 'e', 'y']
}

pub open spec fn kw_api_dash() -> Seq<char> {
    seq!['a', 'p', 'i', '-', 'k', 'e', 'y']
}

pub open spec fn kw_api_plain() -> Seq<char> {
    seq!['a', 'p', 'i', 'k', 'e', 'y']
}

pub open spec fn kw_token() -> Seq<char> {
    seq!['t', 'o', 'k', 'e', 'n']
}

pub open spec fn kw_password() -> Seq<char> {
    seq!['p', 'a', 's', 's', 'w', 'o', 'r', 'd']
}

pub open spec fn kw_secret() -> Seq<char> {
    seq!['s', 'e', 'c', 'r', 'e', 't']
}

pub open spec fn api_match_len(s: Seq<char>, i: int) -> nat {
    if kw_match_len(s, i, kw_api_underscore()) > 0 {
        kw_match_len(s, i, kw_api_underscore())
    } else if kw_match_len(s, i, kw_api_dash()) > 0 {
        kw_match_len(s, i, kw_api_dash())
    } else {
        kw_match_len(s, i, kw_api_plain())
    }
}

pub open spec fn token_match_len(s: Seq<char>, i: int) -> nat {
    kw_match_len(s, i, kw_token())
}

pub open spec fn password_match_len(s: Seq<char>, i: int) -> nat {
    kw_match_len(s, i, kw_password())
}

pub open spec fn secret_match_len(s: Seq<char>, i: int) -> nat {
    kw_match_len(s, i, kw_secret())
}

pub open spec fn kw_bearer() -> Seq<char> {
    seq!['b', 'e', 'a', 'r', 'e', 'r']
}

/// Length of a match of `bearer<spaces><value>` at `i`, or 0.
pub open spec fn bearer_match_len(s: Seq<char>, i: int) -> nat {
    if !match_at(s, kw_bearer(), i) {
        0
    } else {
        let k = i + kw_bearer().len();
        let sp = run_len(CharClass::Space, s, k);
        if sp == 0 {
            0
        } else {
            let val = run_len(CharClass::NonSpace, s, k + sp);
            if val == 0 {
                0
            } else {
                ((k - i) + sp + val) as nat
            }
        }
    }
}

/// Position of the last dot in `(lo, hi)` that is followed by at least two
/// letters, or -1 when there is none.  The dot needs at least one domain
/// character before it, so positions at or below `lo` do not count.
pub open spec fn last_tld_dot(s: Seq<char>, lo: int, hi: int) -> int
    recommends
        0 <= lo <= hi <= s.len(),
    decreases hi - lo when lo <= hi
{
    if hi <= lo + 1 {
        -1
    } else {
        let d = hi - 1;
        if s[d] == '.' && run_len(CharClass::Alpha, s, d + 1) >= 2 {
            d
        } else {
            last_tld_dot(s, lo, d)
        }
    }
}

/// Length of a mail-address match at `i`, or 0: a run of local-part
/// characters, `@`, and a domain run whose last feasible dot is followed by
/// at least two letters.
pub open spec fn email_match_len(s: Seq<char>, i: int) -> nat
    recommends
        0 <= i <= s.len(),
{
    let l = run_len(CharClass::MailLocal, s, i);
    if l == 0 {
        0
    } else {
        let a = i + l;
        if a >= s.len() || s[a] != '@' {
            0
        } else {
            let r = run_len(CharClass::MailDomain, s, a + 1);
            if r == 0 {
                0
            } else {
                let d = last_tld_dot(s, a + 1, a + 1 + r);
                if d < 0 {
                    0
                } else {
                    ((d + 1 + run_len(CharClass::Alpha, s, d + 1)) - i) as nat
                }
            }
        }
    }
}

/// A word boundary on the left of position `i`: the start of the string, or
/// a preceding character that is not a word character.
pub open spec fn ip_boundary_before(s: Seq<char>, i: int) -> bool {
    i == 0 || !is_word_char(s[i - 1])
}

/// A word boundary on the right of position `e`.
pub open spec fn ip_boundary_after(s: Seq<char>, e: int) -> bool {
    e == s.len() || !is_word_char(s[e])
}

/// A digit group of an IPv4 address: a maximal run of one to three digits.
pub open spec fn ip_group_ok(s: Seq<char>, i: int) -> bool {
    1 <= run_len(CharClass::Digit, s, i) <= 3
}

/// Length of an IPv4-address match at `i`, or 0: four digit groups joined by
/// dots, delimited by word boundaries on both sides.
pub open spec fn ip_match_len(s: Seq<char>, i: int) -> nat
    recommends
        0 <= i <= s.len(),
{
    if !ip_boundary_before(s, i) || !ip_group_ok(s, i) {
        0
    } else {
        let p1 = i + run_len(CharClass::Digit, s, i);
        if p1 >= s.len() || s[p1] != '.' || !ip_group_ok(s, p1 + 1) {
            0
        } else {
            let p2 = p1 + 1 + run_len(CharClass::Digit, s, p1 + 1);
            if p2 >= s.len() || s[p2] != '.' || !ip_group_ok(s, p2 + 1) {
                0
            } else {
                let p3 = p2 + 1 + run_len(CharClass::Digit, s, p2 + 1);
                if p3 >= s.len() || s[p3] != '.' || !ip_group_ok(s, p3 + 1) {
                    0
                } else {
                    let e = p3 + 1 + run_len(CharClass::Digit, s, p3 + 1);
                    if !ip_boundary_after(s, e) {
                        0
                    } else {
                        (e - i) as nat
                    }
                }
            }
        }
    }
}

/// Some pattern matches at position `i`.
pub open spec fn any_match_at(s: Seq<char>, i: int) -> bool {
    api_match_len(s, i) > 0 || token_match_len(s, i) > 0 || password_match_len(s, i) > 0
        || secret_match_len(s, i) > 0 || bearer_match_len(s, i) > 0 || email_match_len(s, i) > 0
        || ip_match_len(s, i) > 0
}

/// No pattern matches anywhere: the string is clean.
pub open spec fn clean(s: Seq<char>) -> bool {
    forall|i: int| 0 <= i < s.len() ==> !any_match_at(s, i)
}

/// Number of path separators in `s[i..i+n]`.
pub open spec fn count_slashes(s: Seq<char>, i: int, n: int) -> int
    decreases n when 0 <= i && 0 <= n && i + n <= s.len()
{
    if n <= 0 {
        0
    } else {
        (if s[i] == '/' {
            1int
        } else {
            0int
        }) + count_slashes(s, i + 1, n - 1)
    }
}

/// Length of a file-path match at `i`, or 0: a maximal run of path
/// characters that starts with a separator and holds at least three of them.
pub open spec fn path_match_len(s: Seq<char>, i: int) -> nat
    recommends
        0 <= i <= s.len(),
{
    if i < s.len() && s[i] == '/' {
        let r = run_len(CharClass::PathChar, s, i);
        if count_slashes(s, i, r as int) >= 3 {
            r
        } else {
            0
        }
    } else {
        0
    }
}

/// The patterns the substitution passes mask, in pass order.
#[derive(Clone, Copy, PartialEq, Eq, Structural)]
pub enum Pat {
    ApiKey,
    Token,
    Password,
    Secret,
    Bearer,
    FilePath,
    Email,
    Ip,
}

/// Length of a match of the given pattern at `i`, or 0.
pub open spec fn pat_len(p: Pat, s: Seq<char>, i: int) -> nat {
    match p {
        Pat::ApiKey => api_match_len(s, i),
        Pat::Token => token_match_len(s, i),
        Pat::Password => password_match_len(s, i),
        Pat::Secret => secret_match_len(s, i),
        Pat::Bearer => bearer_match_len(s, i),
        Pat::FilePath => path_match_len(s, i),
        Pat::Email => email_match_len(s, i),
        Pat::Ip => ip_match_len(s, i),
    }
}

/// One substitution pass from `i` on: every match of the pattern is replaced
/// by the placeholder, scanning left to right without overlap.
pub open spec fn replace_pat_from(s: Seq<char>, p: Pat, ph: Seq<char>, i: int) -> Seq<char>
    decreases s.len() - i when 0 <= i <= s.len() via replace_pat_from_decreases
{
    if i >= s.len() {
        Seq::empty()
    } else if pat_len(p, s, i) > 0 {
        ph + replace_pat_from(s, p, ph, i + pat_len(p, s, i))
    } else {
        seq![s[i]] + replace_pat_from(s, p, ph, i + 1)
    }
}

#[via_fn]
proof fn replace_pat_from_decreases(s: Seq<char>, p: Pat, ph: Seq<char>, i: int) {
    if 0 <= i && i < s.len() {
        lemma_pat_len_bounds(p, s, i);
    }
}

/// One whole substitution pass.
pub open spec fn replace_pat_all(s: Seq<char>, p: Pat, ph: Seq<char>) -> Seq<char> {
    replace_pat_from(s, p, ph, 0)
}

/// The redacted form of `s`, before truncation: the ordered substitution
/// passes, each applied to the previous pass's output.
pub open spec fn redact_core(s: Seq<char>) -> Seq<char> {
    let s1 = replace_pat_all(s, Pat::ApiKey, ph_api_key());
    let s2 = replace_pat_all(s1, Pat::Token, ph_token());
    let s3 = replace_pat_all(s2, Pat::Password, ph_password());
    let s4 = replace_pat_all(s3, Pat::Secret, ph_secret());
    let s5 = replace_pat_all(s4, Pat::Bearer, ph_bearer());
    let s6 = replace_pat_all(s5, Pat::Email, ph_email());
    replace_pat_all(s6, Pat::Ip, ph_ip())
}

/// The dot that `last_tld_dot` finds lies strictly inside the range, holds a
/// dot and is followed by at least two letters.
pub proof fn lemma_last_tld_dot(s: Seq<char>, lo: int, hi: int)
    requires
        0 <= lo <= hi <= s.len(),
    ensures
        last_tld_dot(s, lo, hi) == -1 || (lo < last_tld_dot(s, lo, hi) < hi && s[last_tld_dot(
            s,
            lo,
            hi,
        )] == '.' && run_len(CharClass::Alpha, s, last_tld_dot(s, lo, hi) + 1) >= 2),
    decreases hi - lo,
{
    if hi > lo + 1 {
        let d = hi - 1;
        if !(s[d] == '.' && run_len(CharClass::Alpha, s, d + 1) >= 2) {
            lemma_last_tld_dot(s, lo, d);
        }
    }
}

/// A pattern match covers at least one character and never runs past the
/// end of the string.
pub proof fn lemma_pat_len_bounds(p: Pat, s: Seq<char>, i: int)
    requires
        0 <= i < s.len(),
    ensures
        pat_len(p, s, i) > 0 ==> 1 <= pat_len(p, s, i) && i + pat_len(p, s, i) <= s.len(),
{
    lemma_kw_match_len_bounds(s, i, kw_api_underscore());
    lemma_kw_match_len_bounds(s, i, kw_api_dash());
    lemma_kw_match_len_bounds(s, i, kw_api_plain());
    lemma_kw_match_len_bounds(s, i, kw_token());
    lemma_kw_match_len_bounds(s, i, kw_password());
    lemma_kw_match_len_bounds(s, i, kw_secret());
    lemma_bearer_match_len_bounds(s, i);
    lemma_email_match_len_bounds(s, i);
    lemma_ip_match_len_bounds(s, i);
    lemma_run_len_bound(CharClass::PathChar, s, i);
}

pub proof fn lemma_kw_match_len_bounds(s: Seq<char>, i: int, kw: Seq<char>)
    requires
        0 <= i <= s.len(),
    ensures
        i + kw_match_len(s, i, kw) <= s.len(),
{
    if match_at(s, kw, i) {
        let k = i + kw.len();
        let k2: int = if k < s.len() && s[k] == 's' {
            k + 1
        } else {
            k
        };
        lemma_run_len_bound(CharClass::KeySep, s, k2);
        let sep = run_len(CharClass::KeySep, s, k2);
        if sep > 0 {
            lemma_run_len_bound(CharClass::NonSpace, s, k2 + sep);
        }
    }
}

pub proof fn lemma_bearer_match_len_bounds(s: Seq<char>, i: int)
    requires
        0 <= i <= s.len(),
    ensures
        i + bearer_match_len(s, i) <= s.len(),
{
    if match_at(s, kw_bearer(), i) {
        let k = i + kw_bearer().len();
        lemma_run_len_bound(CharClass::Space, s, k);
        let sp = run_len(CharClass::Space, s, k);
        if sp > 0 {
            lemma_run_len_bound(CharClass::NonSpace, s, k + sp);
        }
    }
}

pub proof fn lemma_email_match_len_bounds(s: Seq<char>, i: int)
    requires
        0 <= i <= s.len(),
    ensures
        i + email_match_len(s, i) <= s.len(),
{
    lemma_run_len_bound(CharClass::MailLocal, s, i);
    let l = run_len(CharClass::MailLocal, s, i);
    if l > 0 {
        let a = i + l;
        if a < s.len() && s[a] == '@' {
            lemma_run_len_bound(CharClass::MailDomain, s, a + 1);
            let r = run_len(CharClass::MailDomain, s, a + 1);
            if r > 0 {
                lemma_last_tld_dot(s, a + 1, a + 1 + r);
                let d = last_tld_dot(s, a + 1, a + 1 + r);
                if d >= 0 {
                    lemma_run_len_bound(CharClass::Alpha, s, d + 1);
                }
            }
        }
    }
}

pub proof fn lemma_ip_match_len_bounds(s: Seq<char>, i: int)
    requires
        0 <= i <= s.len(),
    ensures
        i + ip_match_len(s, i) <= s.len(),
{
    if ip_boundary_before(s, i) && ip_group_ok(s, i) {
        lemma_run_len_bound(CharClass::Digit, s, i);
        let p1 = i + run_len(CharClass::Digit, s, i);
        if p1 < s.len() && s[p1] == '.' && ip_group_ok(s, p1 + 1) {
            lemma_run_len_bound(CharClass::Digit, s, p1 + 1);
            let p2 = p1 + 1 + run_len(CharClass::Digit, s, p1 + 1);
            if p2 < s.len() && s[p2] == '.' && ip_group_ok(s, p2 + 1) {
                lemma_run_len_bound(CharClass::Digit, s, p2 + 1);
                let p3 = p2 + 1 + run_len(CharClass::Digit, s, p2 + 1);
                if p3 < s.len() && s[p3] == '.' && ip_group_ok(s, p3 + 1) {
                    lemma_run_len_bound(CharClass::Digit, s, p3 + 1);
                }
            }
        }
    }
}

pub open spec fn ellipsis() -> Seq<char> {
    seq!['.', '.', '.']
}

/// The redacted form of `s`: patterns replaced, then cut to the bounded
/// length with an ellipsis marker.
pub open spec fn redact_spec(s: Seq<char>) -> Seq<char> {
    let c = redact_core(s);
    if c.len() > REDACT_MAX_LEN as int {
        c.take(REDACT_MAX_LEN - 3) + ellipsis()
    } else {
        c
    }
}

/// Measures a keyword match (`<kw>[s]<seps><value>`) at `i`.
#[verifier::loop_isolation(false)]
fn kw_match_len_x(v: &Vec<char>, i: usize, kw: &Vec<char>) -> (r: usize)
    requires
        i <= v@.len(),
    ensures
        r == kw_match_len(v@, i as int, kw@),
        i + r <= v@.len(),
{
    let n = v.len();
    proof {
        lemma_kw_match_len_bounds(v@, i as int, kw@);
    }
    if !check_match_at(v, kw, i) {
        return 0;
    }
    let k = i + kw.len();
    let k2 = if k < n && v[k] == 's' {
        k + 1
    } else {
        k
    };
    let sep = measure_run(CharClass::KeySep, v, k2);
    if sep == 0 {
        return 0;
    }
    let val = measure_run(CharClass::NonSpace, v, k2 + sep);
    if val == 0 {
        return 0;
    }
    (k2 - i) + sep + val
}

pub fn api_match_len_x(v: &Vec<char>, i: usize) -> (r: usize)
    requires
        i <= v@.len(),
    ensures
        r == api_match_len(v@, i as int),
        i + r <= v@.len(),
{
    let ku: Vec<char> = vec!['a', 'p', 'i', '_', 'k', 'e', 'y'];
    let kd: Vec<char> = vec!['a', 'p', 'i', '-', 'k', 'e', 'y'];
    let kp: Vec<char> = vec!['a', 'p', 'i', 'k', 'e', 'y'];
    proof {
        assert(ku@ =~= kw_api_underscore());
        assert(kd@ =~= kw_api_dash());
        assert(kp@ =~= kw_api_plain());
    }
    let a = kw_match_len_x(v, i, &ku);
    if a > 0 {
        return a;
    }
    let b = kw_match_len_x(v, i, &kd);
    if b > 0 {
        return b;
    }
    kw_match_len_x(v, i, &kp)
}

pub fn token_match_len_x(v: &Vec<char>, i: usize) -> (r: usize)
    requires
        i <= v@.len(),
    ensures
        r == token_match_len(v@, i as int),
        i + r <= v@.len(),
{
    let kw: Vec<char> = vec!['t', 'o', 'k', 'e', 'n'];
    proof {
        assert(kw@ =~= kw_token());
    }
    kw_match_len_x(v, i, &kw)
}

pub fn password_match_len_x(v: &Vec<char>, i: usize) -> (r: usize)
    requires
        i <= v@.len(),
    ensures
        r == password_match_len(v@, i as int),
        i + r <= v@.len(),
{
    let kw: Vec<char> = vec!['p', 'a', 's', 's', 'w', 'o', 'r', 'd'];
    proof {
        assert(kw@ =~= kw_password());
    }
    kw_match_len_x(v, i, &kw)
}

pub fn secret_match_len_x(v: &Vec<char>, i: usize) -> (r: usize)
    requires
        i <= v@.len(),
    ensures
        r == secret_match_len(v@, i as int),
        i + r <= v@.len(),
{
    let kw: Vec<char> = vec!['s', 'e', 'c', 'r', 'e', 't'];
    proof {
        assert(kw@ =~= kw_secret());
    }
    kw_match_len_x(v, i, &kw)
}

#[verifier::loop_isolation(false)]
pub fn bearer_match_len_x(v: &Vec<char>, i: usize) -> (r: usize)
    requires
        i <= v@.len(),
    ensures
        r == bearer_match_len(v@, i as int),
        i + r <= v@.len(),
{
    let n = v.len();
    proof {
        lemma_bearer_match_len_bounds(v@, i as int);
    }
    let kw: Vec<char> = vec!['b', 'e', 'a', 'r', 'e', 'r'];
    proof {
        assert(kw@ =~= kw_bearer());
    }
    if !check_match_at(v, &kw, i) {
        return 0;
    }
    let k = i + kw.len();
    assert(k <= n);
    let sp = measure_run(CharClass::Space, v, k);
    if sp == 0 {
        return 0;
    }
    let val = measure_run(CharClass::NonSpace, v, k + sp);
    if val == 0 {
        return 0;
    }
    (k - i) + sp + val
}

/// Finds the last feasible dot of a domain run, walking from the right.
#[verifier::loop_isolation(false)]
fn last_tld_dot_x(v: &Vec<char>, lo: usize, hi: usize) -> (r: Option<usize>)
    requires
        lo <= hi <= v@.len(),
    ensures
        match r {
            Some(d) => last_tld_dot(v@, lo as int, hi as int) == d as int,
            None => last_tld_dot(v@, lo as int, hi as int) == -1,
        },
{
    let mut h: usize = hi;
    while h - lo > 1
        invariant
            lo <= h <= hi,
            last_tld_dot(v@, lo as int, hi as int) == last_tld_dot(v@, lo as int, h as int),
        decreases h,
    {
        let d = h - 1;
        if v[d] == '.' {
            let al = measure_run(CharClass::Alpha, v, d + 1);
            if al >= 2 {
                return Some(d);
            }
        }
        h = d;
    }
    None
}

#[verifier::loop_isolation(false)]
pub fn email_match_len_x(v: &Vec<char>, i: usize) -> (r: usize)
    requires
        i <= v@.len(),
    ensures
        r == email_match_len(v@, i as int),
        i + r <= v@.len(),
{
    let n = v.len();
    proof {
        lemma_email_match_len_bounds(v@, i as int);
    }
    let l = measure_run(CharClass::MailLocal, v, i);
    if l == 0 {
        return 0;
    }
    let a = i + l;
    if a >= n || v[a] != '@' {
        return 0;
    }
    let dr = measure_run(CharClass::MailDomain, v, a + 1);
    if dr == 0 {
        return 0;
    }
    match last_tld_dot_x(v, a + 1, a + 1 + dr) {
        None => 0,
        Some(d) => {
            proof {
                lemma_last_tld_dot(v@, a + 1 as int, a + 1 + dr as int);
            }
            let al = measure_run(CharClass::Alpha, v, d + 1);
            (d + 1 + al) - i
        },
    }
}

#[verifier::loop_isolation(false)]
pub fn ip_match_len_x(v: &Vec<char>, i: usize) -> (r: usize)
    requires
        i <= v@.len(),
    ensures
        r == ip_match_len(v@, i as int),
        i + r <= v@.len(),
{
    let n = v.len();
    proof {
        lemma_ip_match_len_bounds(v@, i as int);
    }
    if !(i == 0 || !is_word(v[i - 1])) {
        return 0;
    }
    let g1 = measure_run(CharClass::Digit, v, i);
    if g1 < 1 || g1 > 3 {
        return 0;
    }
    let p1 = i + g1;
    if p1 >= n || v[p1] != '.' {
        return 0;
    }
    let g2 = measure_run(CharClass::Digit, v, p1 + 1);
    if g2 < 1 || g2 > 3 {
        return 0;
    }
    let p2 = p1 + 1 + g2;
    if p2 >= n || v[p2] != '.' {
        return 0;
    }
    let g3 = measure_run(CharClass::Digit, v, p2 + 1);
    if g3 < 1 || g3 > 3 {
        return 0;
    }
    let p3 = p2 + 1 + g3;
    if p3 >= n || v[p3] != '.' {
        return 0;
    }
    let g4 = measure_run(CharClass::Digit, v, p3 + 1);
    if g4 < 1 || g4 > 3 {
        return 0;
    }
    let e = p3 + 1 + g4;
    if !(e == n || !is_word(v[e])) {
        return 0;
    }
    e - i
}

/// Counts the separators in the next `n` characters.
#[verifier::loop_isolation(false)]
fn count_slashes_x(v: &Vec<char>, i: usize, n: usize) -> (r: usize)
    requires
        i + n <= v@.len(),
    ensures
        r == count_slashes(v@, i as int, n as int),
{
    let total = v.len();
    let mut count: usize = 0;
    let mut k: usize = 0;
    while k < n
        invariant
            0 <= k <= n,
            count <= k,
            total == v@.len(),
            count_slashes(v@, i as int, n as int) == count + count_slashes(v@, i + k, n - k),
        decreases n - k,
    {
        if v[i + k] == '/' {
            count = count + 1;
        }
        k = k + 1;
    }
    count
}

/// Measures a file-path match at `i`.
#[verifier::loop_isolation(false)]
pub fn path_match_len_x(v: &Vec<char>, i: usize) -> (r: usize)
    requires
        i <= v@.len(),
    ensures
        r == path_match_len(v@, i as int),
        i + r <= v@.len(),
{
    let n = v.len();
    if i < n && v[i] == '/' {
        let run = measure_run(CharClass::PathChar, v, i);
        let slashes = count_slashes_x(v, i, run);
        if slashes >= 3 {
            run
        } else {
            0
        }
    } else {
        0
    }
}

/// Measures a match of the given pattern at `i`.
pub fn pat_len_x(p: Pat, v: &Vec<char>, i: usize) -> (r: usize)
    requires
        i <= v@.len(),
    ensures
        r == pat_len(p, v@, i as int),
        i + r <= v@.len(),
{
    match p {
        Pat::ApiKey => api_match_len_x(v, i),
        Pat::Token => token_match_len_x(v, i),
        Pat::Password => password_match_len_x(v, i),
        Pat::Secret => secret_match_len_x(v, i),
        Pat::Bearer => bearer_match_len_x(v, i),
        Pat::FilePath => path_match_len_x(v, i),
        Pat::Email => email_match_len_x(v, i),
        Pat::Ip => ip_match_len_x(v, i),
    }
}

/// Runs one substitution pass over the character vector.
#[verifier::loop_isolation(false)]
pub fn replace_pat(v: &Vec<char>, p: Pat, ph: &Vec<char>) -> (out: Vec<char>)
    ensures
        out@ == replace_pat_all(v@, p, ph@),
{
    let mut out: Vec<char> = Vec::new();
    let mut i: usize = 0;
    while i < v.len()
        invariant
            0 <= i <= v@.len(),
            replace_pat_all(v@, p, ph@) == out@ + replace_pat_from(v@, p, ph@, i as int),
        decreases v@.len() - i,
    {
        let ghost i0 = i as int;
        let ghost out0 = out@;
        let l = pat_len_x(p, v, i);
        if l > 0 {
            let mut r2: Vec<char> = Vec::new();
            let mut j: usize = 0;
            while j < ph.len()
                invariant
                    0 <= j <= ph@.len(),
                    r2@ == ph@.take(j as int),
                decreases ph@.len() - j,
            {
                r2.push(ph[j]);
                proof {
                    assert(r2@ =~= ph@.take(j + 1 as int));
                }
                j = j + 1;
            }
            proof {
                assert(r2@ =~= ph@);
            }
            out.append(&mut r2);
            i = i + l;
        } else {
            out.push(v[i]);
            i = i + 1;
        }
        proof {
            assert(out0 + replace_pat_from(v@, p, ph@, i0) =~= out@ + replace_pat_from(
                v@,
                p,
                ph@,
                i as int,
            ));
        }
    }
    proof {
        assert(replace_pat_all(v@, p, ph@) =~= out@ + replace_pat_from(v@, p, ph@, i as int));
        assert(replace_pat_from(v@, p, ph@, i as int) =~= Seq::<char>::empty());
        assert(out@ + Seq::<char>::empty() =~= out@);
    }
    out
}

/// Runs the ordered substitution passes over the whole character vector.
fn redact_chars(v: &Vec<char>) -> (out: Vec<char>)
    ensures
        out@ == redact_core(v@),
{
    let ph1: Vec<char> = vec!['[', 'A', 'P', 'I', '_', 'K', 'E', 'Y', ']'];
    let ph2: Vec<char> = vec!['[', 'T', 'O', 'K', 'E', 'N', ']'];
    let ph3: Vec<char> = vec!['[', 'P', 'A', 'S', 'S', 'W', 'O', 'R', 'D', ']'];
    let ph4: Vec<char> = vec!['[', 'S', 'E', 'C', 'R', 'E', 'T', ']'];
    let ph5: Vec<char> = vec!['[', 'B', 'E', 'A', 'R', 'E', 'R', '_', 'T', 'O', 'K', 'E', 'N', ']'];
    let ph6: Vec<char> = vec!['[', 'E', 'M', 'A', 'I', 'L', ']'];
    let ph7: Vec<char> = vec!['[', 'I', 'P', '_', 'A', 'D', 'D', 'R', 'E', 'S', 'S', ']'];
    proof {
        assert(ph1@ =~= ph_api_key());
        assert(ph2@ =~= ph_token());
        assert(ph3@ =~= ph_password());
        assert(ph4@ =~= ph_secret());
        assert(ph5@ =~= ph_bearer());
        assert(ph6@ =~= ph_email());
        assert(ph7@ =~= ph_ip());
    }
    let s1 = replace_pat(v, Pat::ApiKey, &ph1);
    let s2 = replace_pat(&s1, Pat::Token, &ph2);
    let s3 = replace_pat(&s2, Pat::Password, &ph3);
    let s4 = replace_pat(&s3, Pat::Secret, &ph4);
    let s5 = replace_pat(&s4, Pat::Bearer, &ph5);
    let s6 = replace_pat(&s5, Pat::Email, &ph6);
    replace_pat(&s6, Pat::Ip, &ph7)
}

/// Replaces credential assignments, bearer tokens, mail addresses and IPv4
/// addresses with fixed placeholder tags and truncates the result.
#[verifier::loop_isolation(false)]
pub fn redact(s: &str) -> (r: String)
    ensures
        r@ == redact_spec(s@),
{
    let v = str_chars(s);
    let mut out = redact_chars(&v);
    if out.len() > REDACT_MAX_LEN {
        let ghost full = out@;
        out.truncate(REDACT_MAX_LEN - 3);
        out.push('.');
        out.push('.');
        out.push('.');
        proof {
            assert(out@ =~= full.take(REDACT_MAX_LEN - 3) + ellipsis());
        }
    }
    chars_to_string(&out)
}


/// Decides whether any redactable pattern occurs in the string; a string
/// without one is left unchanged by redaction.
#[verifier::loop_isolation(false)]
pub fn contains_redactable(s: &str) -> (r: bool)
    ensures
        r == !clean(s@),
{
    let v = str_chars(s);
    let mut i: usize = 0;
    while i < v.len()
        invariant
            0 <= i <= v@.len(),
            forall|m: int| 0 <= m < i ==> !any_match_at(v@, m),
        decreases v@.len() - i,
    {
        let la = api_match_len_x(&v, i);
        let lt = token_match_len_x(&v, i);
        let lp = password_match_len_x(&v, i);
        let ls = secret_match_len_x(&v, i);
        let lb = bearer_match_len_x(&v, i);
        let le = email_match_len_x(&v, i);
        let li = ip_match_len_x(&v, i);
        if la > 0 || lt > 0 || lp > 0 || ls > 0 || lb > 0 || le > 0 || li > 0 {
            assert(any_match_at(v@, i as int));
            return true;
        }
        i = i + 1;
    }
    false
}

/// A suffix with no match of the pattern is copied unchanged by its pass.
proof fn lemma_replace_pat_clean_from(s: Seq<char>, p: Pat, ph: Seq<char>, i: int)
    requires
        0 <= i <= s.len(),
        forall|j: int| i <= j < s.len() ==> pat_len(p, s, j) == 0,
    ensures
        replace_pat_from(s, p, ph, i) == s.skip(i),
    decreases s.len() - i,
{
    if i >= s.len() {
        assert(replace_pat_from(s, p, ph, i) =~= s.skip(i));
    } else {
        assert(pat_len(p, s, i) == 0);
        lemma_replace_pat_clean_from(s, p, ph, i + 1);
        assert(replace_pat_from(s, p, ph, i) =~= s.skip(i));
    }
}

/// A pass whose pattern is absent from the string is the identity.
pub proof fn lemma_replace_pat_identity(s: Seq<char>, p: Pat, ph: Seq<char>)
    requires
        forall|i: int| 0 <= i < s.len() ==> pat_len(p, s, i) == 0,
    ensures
        replace_pat_all(s, p, ph) == s,
{
    lemma_replace_pat_clean_from(s, p, ph, 0);
    assert(s.skip(0) =~= s);
}

/// A pattern match never starts on an opening bracket.
proof fn lemma_pat_head(p: Pat, s: Seq<char>, i: int)
    requires
        0 <= i < s.len(),
        pat_len(p, s, i) > 0,
    ensures
        s[i] != '[',
{
    match p {
        Pat::ApiKey => {
            lemma_kw_head(s, i, kw_api_underscore());
            lemma_kw_head(s, i, kw_api_dash());
            lemma_kw_head(s, i, kw_api_plain());
        },
        Pat::Token => {
            lemma_kw_head(s, i, kw_token());
        },
        Pat::Password => {
            lemma_kw_head(s, i, kw_password());
        },
        Pat::Secret => {
            lemma_kw_head(s, i, kw_secret());
        },
        Pat::Bearer => {
            lemma_kw_head(s, i, kw_bearer());
        },
        Pat::FilePath => {
            assert(s[i] == '/');
        },
        Pat::Email => {
            assert(run_len(CharClass::MailLocal, s, i) >= 1);
            assert(in_class(CharClass::MailLocal, s[i]));
        },
        Pat::Ip => {
            assert(run_len(CharClass::Digit, s, i) >= 1);
            assert(in_class(CharClass::Digit, s[i]));
        },
    }
}

proof fn lemma_kw_head(s: Seq<char>, i: int, kw: Seq<char>)
    requires
        0 <= i <= s.len(),
        kw.len() >= 1,
    ensures
        kw_match_len(s, i, kw) > 0 ==> s[i] == kw[0],
{
}

/// With the pattern first matching at `i`, the pass keeps the prefix and
/// then emits a bracket where the input has none: the result differs.
proof fn lemma_replace_pat_differs(s: Seq<char>, p: Pat, ph: Seq<char>, j: int, i: int)
    requires
        0 <= j <= i < s.len(),
        pat_len(p, s, i) > 0,
        forall|m: int| j <= m < i ==> pat_len(p, s, m) == 0,
        ph.len() >= 1,
        ph[0] == '[',
    ensures
        replace_pat_from(s, p, ph, j) != s.skip(j),
    decreases i - j,
{
    if j == i {
        lemma_pat_head(p, s, i);
        lemma_pat_len_bounds(p, s, i);
        assert(replace_pat_from(s, p, ph, i) == ph + replace_pat_from(
            s,
            p,
            ph,
            i + pat_len(p, s, i),
        ));
        assert(replace_pat_from(s, p, ph, i)[0] == '[');
        assert(s.skip(i)[0] == s[i]);
    } else {
        assert(pat_len(p, s, j) == 0);
        lemma_replace_pat_differs(s, p, ph, j + 1, i);
        assert(replace_pat_from(s, p, ph, j) == seq![s[j]] + replace_pat_from(s, p, ph, j + 1));
        if replace_pat_from(s, p, ph, j) == s.skip(j) {
            assert(replace_pat_from(s, p, ph, j).drop_first() =~= replace_pat_from(s, p, ph, j + 1));
            assert(s.skip(j).drop_first() =~= s.skip(j + 1));
        }
    }
}

/// Some position carries the first match of a pattern that occurs at all.
proof fn lemma_first_pat_match(s: Seq<char>, p: Pat, k: int)
    requires
        0 <= k <= s.len(),
        exists|m: int| k <= m < s.len() && pat_len(p, s, m) > 0,
    ensures
        exists|i: int|
            k <= i < s.len() && #[trigger] pat_len(p, s, i) > 0 && (forall|m: int|
                k <= m < i ==> pat_len(p, s, m) == 0),
    decreases s.len() - k,
{
    if pat_len(p, s, k) > 0 {
        assert(k <= k < s.len() && pat_len(p, s, k) > 0 && (forall|m: int|
            k <= m < k ==> pat_len(p, s, m) == 0));
    } else {
        let w = choose|m: int| k <= m < s.len() && pat_len(p, s, m) > 0;
        assert(k + 1 <= w < s.len() && pat_len(p, s, w) > 0);
        lemma_first_pat_match(s, p, k + 1);
        let i = choose|i: int|
            k + 1 <= i < s.len() && #[trigger] pat_len(p, s, i) > 0 && (forall|m: int|
                k + 1 <= m < i ==> pat_len(p, s, m) == 0);
        assert(k <= i < s.len() && pat_len(p, s, i) > 0 && (forall|m: int|
            k <= m < i ==> pat_len(p, s, m) == 0));
    }
}

/// A substitution pass leaves a string exactly as it was if and only if its
/// pattern is absent from the string.
pub proof fn lemma_replace_pat_fixed_point_iff(s: Seq<char>, p: Pat, ph: Seq<char>)
    requires
        ph.len() >= 1,
        ph[0] == '[',
    ensures
        replace_pat_all(s, p, ph) == s <==> (forall|i: int|
            0 <= i < s.len() ==> pat_len(p, s, i) == 0),
{
    if forall|i: int| 0 <= i < s.len() ==> pat_len(p, s, i) == 0 {
        lemma_replace_pat_identity(s, p, ph);
    } else {
        let w = choose|m: int| 0 <= m < s.len() && pat_len(p, s, m) > 0;
        assert(0 <= w < s.len() && pat_len(p, s, w) > 0);
        lemma_first_pat_match(s, p, 0);
        let i = choose|i: int|
            0 <= i < s.len() && #[trigger] pat_len(p, s, i) > 0 && (forall|m: int|
                0 <= m < i ==> pat_len(p, s, m) == 0);
        lemma_replace_pat_differs(s, p, ph, 0, i);
        assert(s.skip(0) =~= s);
    }
}

/// A string in which no pattern matches and that fits the length bound is
/// left exactly as it is: every pass is the identity on it.
pub proof fn lemma_redact_identity_on_clean(s: Seq<char>)
    requires
        clean(s),
        s.len() <= REDACT_MAX_LEN as int,
    ensures
        redact_spec(s) == s,
{
    assert forall|i: int| 0 <= i < s.len() implies pat_len(Pat::ApiKey, s, i) == 0 && pat_len(
        Pat::Token,
        s,
        i,
    ) == 0 && pat_len(Pat::Password, s, i) == 0 && pat_len(Pat::Secret, s, i) == 0 && pat_len(
        Pat::Bearer,
        s,
        i,
    ) == 0 && pat_len(Pat::Email, s, i) == 0 && pat_len(Pat::Ip, s, i) == 0 by {
        assert(!any_match_at(s, i));
    }
    lemma_replace_pat_identity(s, Pat::ApiKey, ph_api_key());
    lemma_replace_pat_identity(s, Pat::Token, ph_token());
    lemma_replace_pat_identity(s, Pat::Password, ph_password());
    lemma_replace_pat_identity(s, Pat::Secret, ph_secret());
    lemma_replace_pat_identity(s, Pat::Bearer, ph_bearer());
    lemma_replace_pat_identity(s, Pat::Email, ph_email());
    lemma_replace_pat_identity(s, Pat::Ip, ph_ip());
    assert(redact_core(s) == s);
}

/// Redaction is idempotent on any input whose redacted form is clean and
/// needed no truncation: redacting a second time changes nothing.  (A first
/// pass whose output is truncated may cut a value off right after a keyword,
/// which a second pass would then redact again.  Whether the passes' output
/// is always clean is not established here; `contains_redactable` decides it
/// for any given value.)
pub proof fn lemma_redact_idempotent(s: Seq<char>)
    requires
        clean(redact_core(s)),
        redact_core(s).len() <= REDACT_MAX_LEN as int,
    ensures
        redact_spec(redact_spec(s)) == redact_spec(s),
{
    assert(redact_spec(s) == redact_core(s));
    lemma_redact_identity_on_clean(redact_core(s));
}

} // verus!
