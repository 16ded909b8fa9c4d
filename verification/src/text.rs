//! Shared text utilities: conversions between `String` and `Vec<char>`,
//! character classes, maximal-run measurement and substring search used by
//! the sanitizer and the redaction scanners.

use vstd::prelude::*;

verus! {

/// Relies on str::chars: yields the characters of the string in order.
#[verifier::external_body]
pub fn str_chars(s: &str) -> (r: Vec<char>)
    ensures
        r@ == s@,
{
    s.chars().collect()
}

/// Relies on String's FromIterator<char>: collects the characters in order.
#[verifier::external_body]
pub fn chars_to_string(v: &Vec<char>) -> (r: String)
    ensures
        r@ == v@,
{
    v.iter().collect()
}

/// Character classes the scanners measure runs of.
#[derive(Clone, Copy, PartialEq, Eq, Structural)]
pub enum CharClass {
    /// Whitespace.
    Space,
    /// Anything that is not whitespace.
    NonSpace,
    /// A separator accepted between a secret keyword and its value: `:`, `=` or whitespace.
    KeySep,
    /// An ASCII decimal digit.
    Digit,
    /// A character allowed in the local part of a mail address.
    MailLocal,
    /// A character allowed in the domain part of a mail address.
    MailDomain,
    /// An ASCII letter.
    Alpha,
    /// An ASCII letter, digit or underscore.
    Word,
    /// A character of a file-system path: letters, digits, underscore,
    /// hyphen and the path separator.
    PathChar,
}

/// Whitespace as the scanners understand it.
pub open spec fn is_space_char(c: char) -> bool {
    c == ' ' || c == '\t' || c == '\n' || c == '\r' || c == '\u{b}' || c == '\u{c}'
}

/// ASCII letters, digits and underscore: the characters that form words.
pub open spec fn is_word_char(c: char) -> bool {
    ('a' <= c && c <= 'z') || ('A' <= c && c <= 'Z') || ('0' <= c && c <= '9') || c == '_'
}

pub open spec fn is_digit_char(c: char) -> bool {
    '0' <= c && c <= '9'
}

pub open spec fn is_alpha_char(c: char) -> bool {
    ('a' <= c && c <= 'z') || ('A' <= c && c <= 'Z')
}

pub open spec fn is_mail_local_char(c: char) -> bool {
    is_alpha_char(c) || is_digit_char(c) || c == '.' || c == '_' || c == '%' || c == '+' || c
        == '-'
}

pub open spec fn is_mail_domain_char(c: char) -> bool {
    is_alpha_char(c) || is_digit_char(c) || c == '.' || c == '-'
}

pub open spec fn is_path_char(c: char) -> bool {
    is_alpha_char(c) || is_digit_char(c) || c == '_' || c == '-' || c == '/'
}

pub open spec fn is_key_sep_char(c: char) -> bool {
    c == ':' || c == '=' || is_space_char(c)
}

/// Membership of a character in a class.
pub open spec fn in_class(cl: CharClass, c: char) -> bool {
    match cl {
        CharClass::Space => is_space_char(c),
        CharClass::NonSpace => !is_space_char(c),
        CharClass::KeySep => is_key_sep_char(c),
        CharClass::Digit => is_digit_char(c),
        CharClass::MailLocal => is_mail_local_char(c),
        CharClass::MailDomain => is_mail_domain_char(c),
        CharClass::Alpha => is_alpha_char(c),
        CharClass::Word => is_word_char(c),
        CharClass::PathChar => is_path_char(c),
    }
}

pub fn is_space(c: char) -> (r: bool)
    ensures
        r == is_space_char(c),
{
    c == ' ' || c == '\t' || c == '\n' || c == '\r' || c == '\u{b}' || c == '\u{c}'
}

pub fn is_word(c: char) -> (r: bool)
    ensures
        r == is_word_char(c),
{
    ('a' <= c && c <= 'z') || ('A' <= c && c <= 'Z') || ('0' <= c && c <= '9') || c == '_'
}

/// Decides membership of `c` in `cl`.
pub fn char_in_class(cl: CharClass, c: char) -> (r: bool)
    ensures
        r == in_class(cl, c),
{
    match cl {
        CharClass::Space => is_space(c),
        CharClass::NonSpace => !is_space(c),
        CharClass::KeySep => c == ':' || c == '=' || is_space(c),
        CharClass::Digit => '0' <= c && c <= '9',
        CharClass::MailLocal => ('a' <= c && c <= 'z') || ('A' <= c && c <= 'Z') || ('0' <= c
            && c <= '9') || c == '.' || c == '_' || c == '%' || c == '+' || c == '-',
        CharClass::MailDomain => ('a' <= c && c <= 'z') || ('A' <= c && c <= 'Z') || ('0' <= c
            && c <= '9') || c == '.' || c == '-',
        CharClass::Alpha => ('a' <= c && c <= 'z') || ('A' <= c && c <= 'Z'),
        CharClass::Word => is_word(c),
        CharClass::PathChar => ('a' <= c && c <= 'z') || ('A' <= c && c <= 'Z') || ('0' <= c
            && c <= '9') || c == '_' || c == '-' || c == '/',
    }
}

/// Length of the maximal run of characters of class `cl` starting at `i`.
pub open spec fn run_len(cl: CharClass, s: Seq<char>, i: int) -> nat
    decreases s.len() - i when 0 <= i <= s.len()
{
    if i < s.len() && in_class(cl, s[i]) {
        1 + run_len(cl, s, i + 1)
    } else {
        0
    }
}

/// Every character of the run is in the class, and the run is maximal.
pub proof fn lemma_run_len_bound(cl: CharClass, s: Seq<char>, i: int)
    requires
        0 <= i <= s.len(),
    ensures
        i + run_len(cl, s, i) <= s.len(),
        forall|k: int| i <= k < i + run_len(cl, s, i) ==> in_class(cl, s[k]),
        i + run_len(cl, s, i) < s.len() ==> !in_class(cl, s[i + run_len(cl, s, i)]),
    decreases s.len() - i,
{
    if i < s.len() && in_class(cl, s[i]) {
        lemma_run_len_bound(cl, s, i + 1);
    }
}

/// Measures the maximal run of class `cl` starting at `i`.
#[verifier::loop_isolation(false)]
pub fn measure_run(cl: CharClass, v: &Vec<char>, i: usize) -> (r: usize)
    requires
        i <= v@.len(),
    ensures
        r == run_len(cl, v@, i as int),
        i + r <= v@.len(),
{
    let mut j: usize = i;
    while j < v.len() && char_in_class(cl, v[j])
        invariant
            i <= j <= v@.len(),
            run_len(cl, v@, i as int) == (j - i) + run_len(cl, v@, j as int),
        decreases v@.len() - j,
    {
        j = j + 1;
    }
    j - i
}

/// The needle occurs in the haystack at position `i`.
pub open spec fn match_at(h: Seq<char>, n: Seq<char>, i: int) -> bool {
    &&& 0 <= i
    &&& i + n.len() <= h.len()
    &&& forall|k: int| 0 <= k < n.len() ==> h[i + k] == n[k]
}

/// The needle occurs somewhere in the haystack.
pub open spec fn contains_seq(h: Seq<char>, n: Seq<char>) -> bool {
    exists|i: int| match_at(h, n, i)
}

/// Checks whether the needle occurs in the haystack at position `i`.
#[verifier::loop_isolation(false)]
pub fn check_match_at(h: &Vec<char>, n: &Vec<char>, i: usize) -> (r: bool)
    requires
        i <= h@.len(),
    ensures
        r == match_at(h@, n@, i as int),
{
    if n.len() > h.len() - i {
        return false;
    }
    let mut k: usize = 0;
    while k < n.len()
        invariant
            0 <= k <= n@.len(),
            i + n@.len() <= h@.len(),
            i <= h@.len(),
            forall|m: int| 0 <= m < k ==> h@[i + m] == n@[m],
        decreases n@.len() - k,
    {
        if h[i + k] != n[k] {
            return false;
        }
        k = k + 1;
    }
    true
}

/// Searches the haystack for the needle.
#[verifier::loop_isolation(false)]
pub fn contains_sub(h: &Vec<char>, n: &Vec<char>) -> (r: bool)
    ensures
        r == contains_seq(h@, n@),
{
    if n.len() == 0 {
        assert(match_at(h@, n@, 0));
        return true;
    }
    if n.len() > h.len() {
        assert(forall|m: int| !match_at(h@, n@, m));
        return false;
    }
    let end = h.len() - n.len();
    let mut i: usize = 0;
    while i <= end
        invariant
            end == h@.len() - n@.len(),
            0 <= i <= end + 1,
            forall|m: int| 0 <= m < i ==> !match_at(h@, n@, m),
        decreases end + 1 - i,
    {
        if check_match_at(h, n, i) {
            return true;
        }
        i = i + 1;
    }
    assert forall|m: int| !match_at(h@, n@, m) by {
        if 0 <= m && m + n@.len() <= h@.len() {
            assert(m < i);
        }
    }
    false
}

/// The haystack begins with the needle.
pub fn starts_with_sub(h: &Vec<char>, n: &Vec<char>) -> (r: bool)
    ensures
        r == match_at(h@, n@, 0),
{
    check_match_at(h, n, 0)
}

/// Character-for-character equality of two strings.
#[verifier::loop_isolation(false)]
pub fn str_eq(a: &str, b: &str) -> (r: bool)
    ensures
        r == (a@ == b@),
{
    let la = a.unicode_len();
    let lb = b.unicode_len();
    if la != lb {
        assert(a@ != b@);
        return false;
    }
    let mut i: usize = 0;
    while i < la
        invariant
            la == a@.len() && lb == b@.len() && la == lb,
            0 <= i <= la,
            forall|k: int| 0 <= k < i ==> a@[k] == b@[k],
        decreases la - i,
    {
        if a.get_char(i) != b.get_char(i) {
            return false;
        }
        i = i + 1;
    }
    proof {
        assert(a@ =~= b@);
    }
    true
}

/// Equality of two character vectors.
#[verifier::loop_isolation(false)]
pub fn chars_eq(a: &Vec<char>, b: &Vec<char>) -> (r: bool)
    ensures
        r == (a@ == b@),
{
    if a.len() != b.len() {
        assert(a@ != b@);
        return false;
    }
    let mut i: usize = 0;
    while i < a.len()
        invariant
            a@.len() == b@.len(),
            0 <= i <= a@.len(),
            forall|k: int| 0 <= k < i ==> a@[k] == b@[k],
        decreases a@.len() - i,
    {
        if a[i] != b[i] {
            return false;
        }
        i = i + 1;
    }
    proof {
        assert(a@ =~= b@);
    }
    true
}


/// Relies on uuid::Uuid::new_v4 and its hyphenated text form: a fresh random
/// identifier of 36 characters; nothing else is assumed of it.
#[verifier::external_body]
pub(crate) fn new_uuid_string() -> (r: String)
    ensures
        r@.len() == 36,
{
    uuid::Uuid::new_v4().to_string()
}

/// The string with every occurrence of `pat` replaced by `rep`, scanning
/// left to right without overlap, from position `i` on.
pub open spec fn replace_from(s: Seq<char>, pat: Seq<char>, rep: Seq<char>, i: int) -> Seq<char>
    decreases s.len() - i when 0 <= i <= s.len() && pat.len() >= 1
{
    if i >= s.len() {
        Seq::empty()
    } else if match_at(s, pat, i) {
        rep + replace_from(s, pat, rep, i + pat.len())
    } else {
        seq![s[i]] + replace_from(s, pat, rep, i + 1)
    }
}

/// Replaces every occurrence of `pat` by `rep`, scanning left to right.
#[verifier::loop_isolation(false)]
pub fn replace_sub(v: &Vec<char>, pat: &Vec<char>, rep: &Vec<char>) -> (out: Vec<char>)
    requires
        pat@.len() >= 1,
    ensures
        out@ == replace_from(v@, pat@, rep@, 0),
{
    let mut out: Vec<char> = Vec::new();
    let mut i: usize = 0;
    while i < v.len()
        invariant
            0 <= i <= v@.len(),
            replace_from(v@, pat@, rep@, 0) == out@ + replace_from(v@, pat@, rep@, i as int),
        decreases v@.len() - i,
    {
        let ghost out0 = out@;
        let ghost i0 = i as int;
        if check_match_at(v, pat, i) {
            let mut r2: Vec<char> = Vec::new();
            let mut j: usize = 0;
            while j < rep.len()
                invariant
                    0 <= j <= rep@.len(),
                    r2@ == rep@.take(j as int),
                decreases rep@.len() - j,
            {
                r2.push(rep[j]);
                proof {
                    assert(r2@ =~= rep@.take(j + 1 as int));
                }
                j = j + 1;
            }
            proof {
                assert(r2@ =~= rep@);
            }
            out.append(&mut r2);
            i = i + pat.len();
        } else {
            out.push(v[i]);
            i = i + 1;
        }
        proof {
            assert(out0 + replace_from(v@, pat@, rep@, i0) =~= out@ + replace_from(
                v@,
                pat@,
                rep@,
                i as int,
            ));
        }
    }
    proof {
        assert(replace_from(v@, pat@, rep@, 0) =~= out@ + replace_from(v@, pat@, rep@, i as int));
        assert(out@ + Seq::<char>::empty() =~= out@);
    }
    out
}

} // verus!
