//! Input sanitization: length limits, detection of dangerous patterns
//! (SQL-keyword pairs, shell metacharacters, path traversal, script markup),
//! stripping of NUL and BOM characters, and file-path validation.

use crate::text::{
    contains_seq, contains_sub, is_space, is_space_char, match_at, measure_run, run_len,
    str_chars, chars_to_string, CharClass,
};
use vstd::prelude::*;

verus! {

/// Inputs rejected by validation, and why.
#[derive(Debug)]
pub enum ValidationError {
    /// The input exceeded the configured maximum length; carries the field name.
    InputTooLong { field: String },
    /// The input matched a dangerous pattern; carries the field name.
    DangerousPattern { field: String },
    /// A file path held a traversal sequence.
    PathTraversal,
    /// A file path pointed into a system directory.
    SystemDirAccess,
    /// File paths were given in an unrecognized shape.
    InvalidFilePathsFormat,
    /// No usable file path was given.
    NoValidPaths,
    /// More files were asked for than the bound allows.
    TooManyFiles,
    /// The content type is not the accepted one.
    InvalidContentType,
    /// No content type was given.
    MissingContentType,
    /// A request body exceeded the size bound.
    RequestTooLarge,
}

/// `a` equals the lower-case letter `l`, ignoring ASCII case.
pub open spec fn eq_ci(a: char, l: char) -> bool {
    a == l || ('a' <= l && l <= 'z' && a as u32 + 32 == l as u32)
}

/// The needle (given in lower case) occurs at `i`, ignoring ASCII case.
pub open spec fn match_at_ci(h: Seq<char>, n: Seq<char>, i: int) -> bool {
    &&& 0 <= i
    &&& i + n.len() <= h.len()
    &&& forall|k: int| 0 <= k < n.len() ==> eq_ci(h[i + k], n[k])
}

pub open spec fn contains_ci(h: Seq<char>, n: Seq<char>) -> bool {
    exists|i: int| match_at_ci(h, n, i)
}

/// Two keywords separated by at least one whitespace character, at `i`,
/// ignoring ASCII case.
pub open spec fn kw_pair_at(s: Seq<char>, a: Seq<char>, b: Seq<char>, i: int) -> bool {
    &&& match_at_ci(s, a, i)
    &&& run_len(CharClass::Space, s, i + a.len()) >= 1
    &&& match_at_ci(s, b, i + a.len() + run_len(CharClass::Space, s, i + a.len()))
}

pub open spec fn contains_kw_pair(s: Seq<char>, a: Seq<char>, b: Seq<char>) -> bool {
    exists|i: int| kw_pair_at(s, a, b, i)
}

pub open spec fn kw_union() -> Seq<char> {
    seq!['u', 'n', 'i', 'o', 'n']
}

pub open spec fn kw_select() -> Seq<char> {
    seq!['s', 'e', 'l', 'e', 'c', 't']
}

pub open spec fn kw_drop() -> Seq<char> {
    seq!['d', 'r', 'o', 'p']
}

pub open spec fn kw_table() -> Seq<char> {
    seq!['t', 'a', 'b', 'l', 'e']
}

pub open spec fn kw_delete() -> Seq<char> {
    seq!['d', 'e', 'l', 'e', 't', 'e']
}

pub open spec fn kw_from() -> Seq<char> {
    seq!['f', 'r', 'o', 'm']
}

pub open spec fn kw_insert() -> Seq<char> {
    seq!['i', 'n', 's', 'e', 'r', 't']
}

pub open spec fn kw_into() -> Seq<char> {
    seq!['i', 'n', 't', 'o']
}

/// A SQL-injection keyword pair occurs in the string.
pub open spec fn contains_sql_injection(s: Seq<char>) -> bool {
    ||| contains_kw_pair(s, kw_union(), kw_select())
    ||| contains_kw_pair(s, kw_drop(), kw_table())
    ||| contains_kw_pair(s, kw_delete(), kw_from())
    ||| contains_kw_pair(s, kw_insert(), kw_into())
}

/// A shell metacharacter.
pub open spec fn is_cmd_meta_char(c: char) -> bool {
    c == ';' || c == '&' || c == '|' || c == '`' || c == '$' || c == '(' || c == ')'
}

pub open spec fn contains_cmd_meta(s: Seq<char>) -> bool {
    exists|i: int| 0 <= i < s.len() && is_cmd_meta_char(s[i])
}

pub open spec fn seq_dotdot_slash() -> Seq<char> {
    seq!['.', '.', '/']
}

pub open spec fn seq_dotdot_backslash() -> Seq<char> {
    seq!['.', '.', '\\']
}

/// A path-traversal sequence occurs in the string.
pub open spec fn contains_traversal(s: Seq<char>) -> bool {
    contains_seq(s, seq_dotdot_slash()) || contains_seq(s, seq_dotdot_backslash())
}

pub open spec fn kw_script_open() -> Seq<char> {
    seq!['<', 's', 'c', 'r', 'i', 'p', 't']
}

pub open spec fn kw_javascript() -> Seq<char> {
    seq!['j', 'a', 'v', 'a', 's', 'c', 'r', 'i', 'p', 't', ':']
}

/// An event-handler attribute: `on`, at least one word character, optional
/// whitespace, and `=`, ignoring ASCII case on the letters.
pub open spec fn on_attr_at(s: Seq<char>, i: int) -> bool {
    &&& 0 <= i
    &&& i + 2 <= s.len()
    &&& eq_ci(s[i], 'o')
    &&& eq_ci(s[i + 1], 'n')
    &&& run_len(CharClass::Word, s, i + 2) >= 1
    &&& {
        let w = run_len(CharClass::Word, s, i + 2);
        let sp = run_len(CharClass::Space, s, i + 2 + w);
        i + 2 + w + sp < s.len() && s[i + 2 + w + sp] == '='
    }
}

/// A script-injection pattern occurs in the string.
pub open spec fn contains_script_injection(s: Seq<char>) -> bool {
    ||| contains_ci(s, kw_script_open())
    ||| contains_ci(s, kw_javascript())
    ||| exists|i: int| on_attr_at(s, i)
}

/// Any of the dangerous patterns occurs in the string.
pub open spec fn contains_dangerous_pattern(s: Seq<char>) -> bool {
    ||| contains_sql_injection(s)
    ||| contains_cmd_meta(s)
    ||| contains_traversal(s)
    ||| contains_script_injection(s)
}

/// The string with NUL and BOM characters removed, from position `i` on.
pub open spec fn strip_from(s: Seq<char>, i: int) -> Seq<char>
    decreases s.len() - i when 0 <= i <= s.len()
{
    if i >= s.len() {
        Seq::empty()
    } else if s[i] == '\0' || s[i] == '\u{feff}' {
        strip_from(s, i + 1)
    } else {
        seq![s[i]] + strip_from(s, i + 1)
    }
}

pub open spec fn strip_spec(s: Seq<char>) -> Seq<char> {
    strip_from(s, 0)
}

/// Number of trailing whitespace characters of `s.take(j)`.
pub open spec fn rstrip_len(s: Seq<char>, j: int) -> nat
    decreases j when 0 <= j <= s.len()
{
    if j > 0 && is_space_char(s[j - 1]) {
        1 + rstrip_len(s, j - 1)
    } else {
        0
    }
}

proof fn lemma_rstrip_len_bound(s: Seq<char>, j: int)
    requires
        0 <= j <= s.len(),
    ensures
        rstrip_len(s, j) <= j,
        forall|k: int| j - rstrip_len(s, j) <= k < j ==> is_space_char(s[k]),
        j - rstrip_len(s, j) > 0 ==> !is_space_char(s[j - rstrip_len(s, j) - 1]),
    decreases j,
{
    if j > 0 && is_space_char(s[j - 1]) {
        lemma_rstrip_len_bound(s, j - 1);
    }
}

/// The string with leading and trailing whitespace removed.
pub open spec fn trim_spec(s: Seq<char>) -> Seq<char> {
    let a = run_len(CharClass::Space, s, 0);
    if a == s.len() {
        Seq::empty()
    } else {
        s.subrange(a as int, s.len() - rstrip_len(s, s.len() as int))
    }
}

/// Checks the needle at `i`, ignoring ASCII case.
#[verifier::loop_isolation(false)]
fn check_match_at_ci(h: &Vec<char>, n: &Vec<char>, i: usize) -> (r: bool)
    requires
        i <= h@.len(),
    ensures
        r == match_at_ci(h@, n@, i as int),
{
    if n.len() > h.len() - i {
        return false;
    }
    let mut k: usize = 0;
    while k < n.len()
        invariant
            0 <= k <= n@.len(),
            i + n@.len() <= h@.len(),
            forall|m: int| 0 <= m < k ==> eq_ci(h@[i + m], n@[m]),
        decreases n@.len() - k,
    {
        let hc = h[i + k];
        let nc = n[k];
        let nv = nc as u32;
        let ok = hc == nc || ('a' <= nc && nc <= 'z' && nv >= 32 && hc as u32 == nv - 32);
        if !ok {
            return false;
        }
        k = k + 1;
    }
    true
}

/// Searches the haystack for the needle, ignoring ASCII case.
#[verifier::loop_isolation(false)]
fn contains_sub_ci(h: &Vec<char>, n: &Vec<char>) -> (r: bool)
    ensures
        r == contains_ci(h@, n@),
{
    if n.len() == 0 {
        assert(match_at_ci(h@, n@, 0));
        return true;
    }
    if n.len() > h.len() {
        assert(forall|m: int| !match_at_ci(h@, n@, m));
        return false;
    }
    let end = h.len() - n.len();
    let mut i: usize = 0;
    while i <= end
        invariant
            end == h@.len() - n@.len(),
            0 <= i <= end + 1,
            forall|m: int| 0 <= m < i ==> !match_at_ci(h@, n@, m),
        decreases end + 1 - i,
    {
        if check_match_at_ci(h, n, i) {
            return true;
        }
        i = i + 1;
    }
    assert forall|m: int| !match_at_ci(h@, n@, m) by {
        if 0 <= m && m + n@.len() <= h@.len() {
            assert(m < i);
        }
    }
    false
}

/// Searches the string for a keyword pair joined by whitespace.
#[verifier::loop_isolation(false)]
fn contains_kw_pair_x(v: &Vec<char>, a: &Vec<char>, b: &Vec<char>) -> (r: bool)
    ensures
        r == contains_kw_pair(v@, a@, b@),
{
    let n = v.len();
    let mut i: usize = 0;
    while i <= n
        invariant
            n == v@.len(),
            0 <= i <= n + 1,
            forall|m: int| 0 <= m < i ==> !kw_pair_at(v@, a@, b@, m),
        decreases n + 1 - i,
    {
        if i <= n && check_match_at_ci(v, a, i) {
            let sp = measure_run(CharClass::Space, v, i + a.len());
            if sp >= 1 && check_match_at_ci(v, b, i + a.len() + sp) {
                assert(kw_pair_at(v@, a@, b@, i as int));
                return true;
            }
        }
        if i == n {
            break;
        }
        i = i + 1;
    }
    assert forall|m: int| !kw_pair_at(v@, a@, b@, m) by {
        if 0 <= m && m + a@.len() <= v@.len() {
            assert(m <= n);
        }
    }
    false
}

/// Detects a SQL-injection keyword pair.
pub fn has_sql_injection(v: &Vec<char>) -> (r: bool)
    ensures
        r == contains_sql_injection(v@),
{
    let u: Vec<char> = vec!['u', 'n', 'i', 'o', 'n'];
    let se: Vec<char> = vec!['s', 'e', 'l', 'e', 'c', 't'];
    let d: Vec<char> = vec!['d', 'r', 'o', 'p'];
    let t: Vec<char> = vec!['t', 'a', 'b', 'l', 'e'];
    let de: Vec<char> = vec!['d', 'e', 'l', 'e', 't', 'e'];
    let f: Vec<char> = vec!['f', 'r', 'o', 'm'];
    let ins: Vec<char> = vec!['i', 'n', 's', 'e', 'r', 't'];
    let into: Vec<char> = vec!['i', 'n', 't', 'o'];
    proof {
        assert(u@ =~= kw_union());
        assert(se@ =~= kw_select());
        assert(d@ =~= kw_drop());
        assert(t@ =~= kw_table());
        assert(de@ =~= kw_delete());
        assert(f@ =~= kw_from());
        assert(ins@ =~= kw_insert());
        assert(into@ =~= kw_into());
    }
    contains_kw_pair_x(v, &u, &se) || contains_kw_pair_x(v, &d, &t) || contains_kw_pair_x(
        v,
        &de,
        &f,
    ) || contains_kw_pair_x(v, &ins, &into)
}

/// Detects a shell metacharacter.
#[verifier::loop_isolation(false)]
pub fn has_cmd_meta(v: &Vec<char>) -> (r: bool)
    ensures
        r == contains_cmd_meta(v@),
{
    let mut i: usize = 0;
    while i < v.len()
        invariant
            0 <= i <= v@.len(),
            forall|m: int| 0 <= m < i ==> !is_cmd_meta_char(v@[m]),
        decreases v@.len() - i,
    {
        let c = v[i];
        if c == ';' || c == '&' || c == '|' || c == '`' || c == '$' || c == '(' || c == ')' {
            return true;
        }
        i = i + 1;
    }
    false
}

/// Detects a path-traversal sequence.
pub fn has_traversal(v: &Vec<char>) -> (r: bool)
    ensures
        r == contains_traversal(v@),
{
    let fwd: Vec<char> = vec!['.', '.', '/'];
    let bwd: Vec<char> = vec!['.', '.', '\\'];
    proof {
        assert(fwd@ =~= seq_dotdot_slash());
        assert(bwd@ =~= seq_dotdot_backslash());
    }
    contains_sub(v, &fwd) || contains_sub(v, &bwd)
}

/// Detects an event-handler attribute (`on<word>=`).
#[verifier::loop_isolation(false)]
fn has_on_attr(v: &Vec<char>) -> (r: bool)
    ensures
        r == exists|i: int| on_attr_at(v@, i),
{
    let n = v.len();
    if n < 2 {
        assert(forall|m: int| !on_attr_at(v@, m));
        return false;
    }
    let mut i: usize = 0;
    while i <= n - 2
        invariant
            n == v@.len() && n >= 2,
            0 <= i <= n - 1,
            forall|m: int| 0 <= m < i ==> !on_attr_at(v@, m),
        decreases n - i,
    {
        let c0 = v[i];
        let c1 = v[i + 1];
        let ov = 'o' as u32;
        let nv = 'n' as u32;
        let is_o = c0 == 'o' || (ov >= 32 && c0 as u32 == ov - 32);
        let is_n = c1 == 'n' || (nv >= 32 && c1 as u32 == nv - 32);
        if is_o && is_n {
            let w = measure_run(CharClass::Word, v, i + 2);
            if w >= 1 {
                let sp = measure_run(CharClass::Space, v, i + 2 + w);
                if i + 2 + w + sp < n && v[i + 2 + w + sp] == '=' {
                    assert(on_attr_at(v@, i as int));
                    return true;
                }
            }
        }
        proof {
            assert(!on_attr_at(v@, i as int));
        }
        i = i + 1;
    }
    assert forall|m: int| !on_attr_at(v@, m) by {
        if 0 <= m && m + 2 <= v@.len() {
            assert(m < i);
        }
    }
    false
}

/// Detects a script-injection pattern.
pub fn has_script_injection(v: &Vec<char>) -> (r: bool)
    ensures
        r == contains_script_injection(v@),
{
    let sc: Vec<char> = vec!['<', 's', 'c', 'r', 'i', 'p', 't'];
    let js: Vec<char> = vec!['j', 'a', 'v', 'a', 's', 'c', 'r', 'i', 'p', 't', ':'];
    proof {
        assert(sc@ =~= kw_script_open());
        assert(js@ =~= kw_javascript());
    }
    contains_sub_ci(v, &sc) || contains_sub_ci(v, &js) || has_on_attr(v)
}

/// Detects any dangerous pattern.
pub fn has_dangerous_pattern(v: &Vec<char>) -> (r: bool)
    ensures
        r == contains_dangerous_pattern(v@),
{
    has_sql_injection(v) || has_cmd_meta(v) || has_traversal(v) || has_script_injection(v)
}

/// Removes NUL and BOM characters.
#[verifier::loop_isolation(false)]
fn strip_chars(v: &Vec<char>) -> (out: Vec<char>)
    ensures
        out@ == strip_spec(v@),
{
    let mut out: Vec<char> = Vec::new();
    let mut i: usize = 0;
    while i < v.len()
        invariant
            0 <= i <= v@.len(),
            strip_spec(v@) == out@ + strip_from(v@, i as int),
        decreases v@.len() - i,
    {
        let ghost out0 = out@;
        let ghost i0 = i as int;
        let c = v[i];
        if !(c == '\0' || c == '\u{feff}') {
            out.push(c);
        }
        i = i + 1;
        proof {
            assert(out0 + strip_from(v@, i0) =~= out@ + strip_from(v@, i as int));
        }
    }
    proof {
        assert(strip_spec(v@) =~= out@ + strip_from(v@, i as int));
        assert(out@ + Seq::<char>::empty() =~= out@);
    }
    out
}

/// Removes leading and trailing whitespace.
#[verifier::loop_isolation(false)]
fn trim_chars(v: &Vec<char>) -> (out: Vec<char>)
    ensures
        out@ == trim_spec(v@),
{
    let n = v.len();
    let a = measure_run(CharClass::Space, v, 0);
    if a == n {
        let out: Vec<char> = Vec::new();
        assert(out@ =~= trim_spec(v@));
        return out;
    }
    let mut b: usize = 0;
    while n - b > 0 && is_space(v[n - b - 1])
        invariant
            0 <= b <= n,
            n == v@.len(),
            rstrip_len(v@, n as int) == b + rstrip_len(v@, (n - b) as int),
        decreases n - b,
    {
        b = b + 1;
    }
    proof {
        lemma_rstrip_len_bound(v@, n as int);
        crate::text::lemma_run_len_bound(CharClass::Space, v@, 0);
    }
    let mut out: Vec<char> = Vec::new();
    let mut k: usize = a;
    while k < n - b
        invariant
            a <= k <= n - b,
            n == v@.len(),
            b == rstrip_len(v@, n as int),
            a == run_len(CharClass::Space, v@, 0) && a < n,
            out@ == v@.subrange(a as int, k as int),
        decreases n - b - k,
    {
        out.push(v[k]);
        proof {
            assert(out@ =~= v@.subrange(a as int, k + 1 as int));
        }
        k = k + 1;
    }
    proof {
        assert(out@ =~= trim_spec(v@));
    }
    out
}

/// Sanitizes and validates one input string: enforces the length limit,
/// rejects dangerous patterns, strips NUL and BOM characters and trims
/// whitespace.
pub struct InputSanitizer {
    /// Longest accepted input, in characters.
    pub max_string_length: usize,
}

/// Default longest accepted input string.
pub const DEFAULT_MAX_STRING_LENGTH: usize = 10000;

impl InputSanitizer {
    /// Builds a sanitizer with the default length limit.
    pub fn new() -> (r: Result<InputSanitizer, ValidationError>)
        ensures
            r is Ok,
            r matches Ok(s) ==> s.max_string_length == DEFAULT_MAX_STRING_LENGTH,
    {
        Ok(InputSanitizer { max_string_length: DEFAULT_MAX_STRING_LENGTH })
    }

    /// Accepts an input exactly when it respects the length limit and holds
    /// no dangerous pattern; the accepted value is the input with NUL and BOM
    /// characters removed and surrounding whitespace trimmed.
    pub fn sanitize_string(&self, input: &str, field_name: &str) -> (r: Result<
        String,
        ValidationError,
    >)
        ensures
            r is Ok <==> input@.len() <= self.max_string_length && !contains_dangerous_pattern(
                input@,
            ),
            r matches Ok(out) ==> out@ == trim_spec(strip_spec(input@)),
            input@.len() > self.max_string_length ==> (r matches Err(
                ValidationError::InputTooLong { field },
            ) && field@ == field_name@),
            input@.len() <= self.max_string_length && contains_dangerous_pattern(input@) ==> (
            r matches Err(ValidationError::DangerousPattern { field }) && field@ == field_name@),
    {
        let v = str_chars(input);
        if v.len() > self.max_string_length {
            return Err(ValidationError::InputTooLong { field: String::from_str(field_name) });
        }
        if has_dangerous_pattern(&v) {
            return Err(ValidationError::DangerousPattern { field: String::from_str(field_name) });
        }
        let stripped = strip_chars(&v);
        let trimmed = trim_chars(&stripped);
        Ok(chars_to_string(&trimmed))
    }

    /// Accepts a path exactly when it holds no traversal sequence and does
    /// not start with a system directory; the path is returned unchanged.
    pub fn validate_file_path(&self, path: &str) -> (r: Result<String, ValidationError>)
        ensures
            r is Ok <==> !contains_traversal(path@) && !path_in_system_dir(path@),
            r matches Ok(p) ==> p@ == path@,
            contains_traversal(path@) ==> r matches Err(ValidationError::PathTraversal),
            !contains_traversal(path@) && path_in_system_dir(path@) ==> r matches Err(
                ValidationError::SystemDirAccess,
            ),
    {
        let v = str_chars(path);
        if has_traversal(&v) {
            return Err(ValidationError::PathTraversal);
        }
        if starts_with_system_dir(&v) {
            return Err(ValidationError::SystemDirAccess);
        }
        Ok(String::from_str(path))
    }
}

pub open spec fn dir_etc() -> Seq<char> {
    seq!['/', 'e', 't', 'c']
}

pub open spec fn dir_proc() -> Seq<char> {
    seq!['/', 'p', 'r', 'o', 'c']
}

pub open spec fn dir_sys() -> Seq<char> {
    seq!['/', 's', 'y', 's']
}

pub open spec fn dir_dev() -> Seq<char> {
    seq!['/', 'd', 'e', 'v']
}

pub open spec fn dir_root() -> Seq<char> {
    seq!['/', 'r', 'o', 'o', 't']
}

pub open spec fn dir_windows() -> Seq<char> {
    seq!['C', ':', '\\', 'W', 'i', 'n', 'd', 'o', 'w', 's']
}

pub open spec fn dir_system32() -> Seq<char> {
    seq!['C', ':', '\\', 'S', 'y', 's', 't', 'e', 'm', '3', '2']
}

/// The path begins with one of the denied system directories.
pub open spec fn path_in_system_dir(s: Seq<char>) -> bool {
    ||| match_at(s, dir_etc(), 0)
    ||| match_at(s, dir_proc(), 0)
    ||| match_at(s, dir_sys(), 0)
    ||| match_at(s, dir_dev(), 0)
    ||| match_at(s, dir_root(), 0)
    ||| match_at(s, dir_windows(), 0)
    ||| match_at(s, dir_system32(), 0)
}

/// Checks the path against the system-directory deny list.
fn starts_with_system_dir(v: &Vec<char>) -> (r: bool)
    ensures
        r == path_in_system_dir(v@),
{
    let etc: Vec<char> = vec!['/', 'e', 't', 'c'];
    let proc_d: Vec<char> = vec!['/', 'p', 'r', 'o', 'c'];
    let sys: Vec<char> = vec!['/', 's', 'y', 's'];
    let dev: Vec<char> = vec!['/', 'd', 'e', 'v'];
    let root: Vec<char> = vec!['/', 'r', 'o', 'o', 't'];
    let win: Vec<char> = vec!['C', ':', '\\', 'W', 'i', 'n', 'd', 'o', 'w', 's'];
    let sys32: Vec<char> = vec!['C', ':', '\\', 'S', 'y', 's', 't', 'e', 'm', '3', '2'];
    proof {
        assert(etc@ =~= dir_etc());
        assert(proc_d@ =~= dir_proc());
        assert(sys@ =~= dir_sys());
        assert(dev@ =~= dir_dev());
        assert(root@ =~= dir_root());
        assert(win@ =~= dir_windows());
        assert(sys32@ =~= dir_system32());
    }
    crate::text::starts_with_sub(v, &etc) || crate::text::starts_with_sub(v, &proc_d)
        || crate::text::starts_with_sub(v, &sys) || crate::text::starts_with_sub(v, &dev)
        || crate::text::starts_with_sub(v, &root) || crate::text::starts_with_sub(v, &win)
        || crate::text::starts_with_sub(v, &sys32)
}

} // verus!
