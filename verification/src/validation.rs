//! Structural validation of inbound protocol envelopes: size check, version
//! check, per-method structural rules with a tool allow-list, and recursive
//! sanitization of every string leaf.  Parsing the wire bytes is I/O and
//! lives with the embedding program; this module judges the parsed value.

use crate::rate_limiter::{has_key, key_idx, lemma_key_idx_from_props, find_key};
use crate::sanitize::{
    contains_dangerous_pattern, contains_traversal, path_in_system_dir, strip_spec, trim_spec,
    InputSanitizer, ValidationError,
};
use crate::text::str_eq;
use vstd::prelude::*;

verus! {

/// A parsed protocol value, modeled with plain data: numbers too wide for an
/// integer are carried as IEEE bits.
pub enum JsonValue {
    Null,
    Bool(bool),
    Int(i64),
    UInt(u64),
    Double(u64),
    Str(String),
    Arr(Vec<JsonValue>),
    Obj(Vec<(String, JsonValue)>),
}

/// Request validation result.
pub struct ValidationResult {
    pub is_valid: bool,
    pub errors: Vec<String>,
    pub sanitized_data: Option<JsonValue>,
}

/// Identity of the connected client, as given in an initialize envelope.
pub struct ClientInfo {
    pub name: String,
    pub version: String,
}

/// A capability that can announce list changes.
pub struct ListCapability {
    pub list_changed: Option<bool>,
}

/// The field a key names on an object, if the value is an object that has
/// the key.
pub open spec fn get_field(v: JsonValue, k: Seq<char>) -> Option<JsonValue> {
    match v {
        JsonValue::Obj(fields) => if has_key(fields@, k) {
            Some(fields@[key_idx(fields@, k)].1)
        } else {
            None
        },
        _ => None,
    }
}

/// The envelope names the accepted protocol version.
pub open spec fn jsonrpc_version_ok(v: JsonValue) -> bool {
    match get_field(v, "jsonrpc"@) {
        Some(JsonValue::Str(s)) => s@ == "2.0"@,
        _ => false,
    }
}

/// The envelope's method name, or the empty string.
pub open spec fn method_of(v: JsonValue) -> Seq<char> {
    match get_field(v, "method"@) {
        Some(JsonValue::Str(s)) => s@,
        _ => Seq::empty(),
    }
}

/// The named tool of a tool-call envelope, or the empty string.
pub open spec fn tool_name_of(v: JsonValue) -> Seq<char> {
    match get_field(v, "params"@) {
        Some(p) => match get_field(p, "name"@) {
            Some(JsonValue::Str(s)) => s@,
            _ => Seq::empty(),
        },
        _ => Seq::empty(),
    }
}

/// The fixed allow-list of callable tools.
pub open spec fn allowed_tool(n: Seq<char>) -> bool {
    ||| n == "enhanced_query_deepseek"@
    ||| n == "analyze_files"@
    ||| n == "query_deepseek"@
    ||| n == "check_deepseek_status"@
    ||| n == "handoff_to_deepseek"@
    ||| n == "youtu_agent_analyze_files"@
}

/// The methods the gateway knows.
pub open spec fn method_known(m: Seq<char>) -> bool {
    ||| m == "initialize"@
    ||| m == "tools/call"@
    ||| m == "initialized"@
    ||| m == "health"@
    ||| m == "performance/metrics"@
    ||| m == "security/status"@
    ||| m == "security/audit"@
}

/// The per-method structural rule: an initialize envelope carries method and
/// params, a tool call names an allowed tool, the other known methods have
/// no structural demands.
pub open spec fn structure_ok(v: JsonValue) -> bool {
    if method_of(v) == "initialize"@ {
        get_field(v, "method"@) is Some && get_field(v, "params"@) is Some
    } else if method_of(v) == "tools/call"@ {
        allowed_tool(tool_name_of(v))
    } else {
        true
    }
}

/// Every string leaf (and object key) passes the sanitizer's checks.
pub open spec fn sanitize_ok(v: JsonValue, max_len: int) -> bool
    decreases v, 0int,
{
    match v {
        JsonValue::Str(s) => s@.len() <= max_len && !contains_dangerous_pattern(s@),
        JsonValue::Arr(items) => sanitize_arr_ok(items@, 0, max_len),
        JsonValue::Obj(fields) => sanitize_obj_ok(fields@, 0, max_len),
        _ => true,
    }
}

/// The array elements from `i` on all pass.
pub open spec fn sanitize_arr_ok(items: Seq<JsonValue>, i: int, max_len: int) -> bool
    decreases items, items.len() - i when 0 <= i <= items.len()
{
    if i >= items.len() {
        true
    } else {
        sanitize_ok(items[i], max_len) && sanitize_arr_ok(items, i + 1, max_len)
    }
}

/// The object keys and values from `i` on all pass.
pub open spec fn sanitize_obj_ok(fields: Seq<(String, JsonValue)>, i: int, max_len: int) -> bool
    decreases fields, fields.len() - i when 0 <= i <= fields.len()
{
    if i >= fields.len() {
        true
    } else {
        fields[i].0@.len() <= max_len && !contains_dangerous_pattern(fields[i].0@) && sanitize_ok(
            fields[i].1,
            max_len,
        ) && sanitize_obj_ok(fields, i + 1, max_len)
    }
}

/// `b` is `a` with every string leaf and object key stripped of NUL and BOM
/// characters and trimmed.
pub open spec fn sanitize_rel(a: JsonValue, b: JsonValue) -> bool
    decreases a, 0int,
{
    match (a, b) {
        (JsonValue::Null, JsonValue::Null) => true,
        (JsonValue::Bool(x), JsonValue::Bool(y)) => x == y,
        (JsonValue::Int(x), JsonValue::Int(y)) => x == y,
        (JsonValue::UInt(x), JsonValue::UInt(y)) => x == y,
        (JsonValue::Double(x), JsonValue::Double(y)) => x == y,
        (JsonValue::Str(s), JsonValue::Str(t)) => t@ == trim_spec(strip_spec(s@)),
        (JsonValue::Arr(xs), JsonValue::Arr(ys)) => sanitize_arr_rel(xs@, ys@, 0),
        (JsonValue::Obj(xs), JsonValue::Obj(ys)) => sanitize_obj_rel(xs@, ys@, 0),
        _ => false,
    }
}

pub open spec fn sanitize_arr_rel(xs: Seq<JsonValue>, ys: Seq<JsonValue>, i: int) -> bool
    decreases xs, xs.len() - i when 0 <= i <= xs.len()
{
    if xs.len() != ys.len() {
        false
    } else if i >= xs.len() {
        true
    } else {
        sanitize_rel(xs[i], ys[i]) && sanitize_arr_rel(xs, ys, i + 1)
    }
}

pub open spec fn sanitize_obj_rel(
    xs: Seq<(String, JsonValue)>,
    ys: Seq<(String, JsonValue)>,
    i: int,
) -> bool
    decreases xs, xs.len() - i when 0 <= i <= xs.len()
{
    if xs.len() != ys.len() {
        false
    } else if i >= xs.len() {
        true
    } else {
        ys[i].0@ == trim_spec(strip_spec(xs[i].0@)) && sanitize_rel(xs[i].1, ys[i].1)
            && sanitize_obj_rel(xs, ys, i + 1)
    }
}

/// Default largest accepted payload, in bytes.
pub const DEFAULT_MAX_PAYLOAD_SIZE: usize = 1048576;

/// Protocol request validator enforcing the envelope rules.
pub struct McpRequestValidator {
    pub sanitizer: InputSanitizer,
    pub max_payload_size: usize,
}

/// Reads the field a key names, when the value is an object that has it.
fn get_field_ref<'a>(v: &'a JsonValue, k: &str) -> (r: Option<&'a JsonValue>)
    ensures
        match r {
            Some(f) => get_field(*v, k@) == Some(*f),
            None => get_field(*v, k@) is None,
        },
{
    match v {
        JsonValue::Obj(fields) => {
            proof {
                lemma_key_idx_from_props(fields@, k@, 0);
            }
            match find_key(fields, k) {
                Some(i) => Some(&fields[i].1),
                None => None,
            }
        },
        _ => None,
    }
}


/// A forall over the elements yields the recursive array predicates.
proof fn lemma_arr_sanitized_from(
    items: Seq<JsonValue>,
    out: Seq<JsonValue>,
    max_len: int,
    i: int,
)
    requires
        0 <= i <= items.len(),
        out.len() == items.len(),
        forall|x: int|
            i <= x < items.len() ==> #[trigger] sanitize_ok(items[x], max_len) && sanitize_rel(
                items[x],
                out[x],
            ),
    ensures
        sanitize_arr_ok(items, i, max_len),
        sanitize_arr_rel(items, out, i),
    decreases items.len() - i,
{
    if i < items.len() {
        assert(sanitize_ok(items[i], max_len));
        assert(sanitize_rel(items[i], out[i]));
        lemma_arr_sanitized_from(items, out, max_len, i + 1);
    }
}

/// A broken element breaks the recursive array predicate.
proof fn lemma_arr_not_ok(items: Seq<JsonValue>, max_len: int, j: int, i: int)
    requires
        0 <= j <= i < items.len(),
        !sanitize_ok(items[i], max_len),
    ensures
        !sanitize_arr_ok(items, j, max_len),
    decreases i - j,
{
    if j < i {
        lemma_arr_not_ok(items, max_len, j + 1, i);
    }
}

/// A forall over the fields yields the recursive object predicates.
proof fn lemma_obj_sanitized_from(
    fields: Seq<(String, JsonValue)>,
    out: Seq<(String, JsonValue)>,
    max_len: int,
    i: int,
)
    requires
        0 <= i <= fields.len(),
        out.len() == fields.len(),
        forall|x: int|
            i <= x < fields.len() ==> (#[trigger] fields[x].0@.len() <= max_len
                && !contains_dangerous_pattern(fields[x].0@) && sanitize_ok(fields[x].1, max_len)
                && out[x].0@ == trim_spec(strip_spec(fields[x].0@)) && sanitize_rel(
                fields[x].1,
                out[x].1,
            )),
    ensures
        sanitize_obj_ok(fields, i, max_len),
        sanitize_obj_rel(fields, out, i),
    decreases fields.len() - i,
{
    if i < fields.len() {
        assert(fields[i].0@.len() <= max_len && !contains_dangerous_pattern(fields[i].0@)
            && sanitize_ok(fields[i].1, max_len));
        assert(out[i].0@ == trim_spec(strip_spec(fields[i].0@)));
        assert(sanitize_rel(fields[i].1, out[i].1));
        lemma_obj_sanitized_from(fields, out, max_len, i + 1);
    }
}

/// A broken key or value breaks the recursive object predicate.
proof fn lemma_obj_not_ok(fields: Seq<(String, JsonValue)>, max_len: int, j: int, i: int)
    requires
        0 <= j <= i < fields.len(),
        !(fields[i].0@.len() <= max_len && !contains_dangerous_pattern(fields[i].0@)
            && sanitize_ok(fields[i].1, max_len)),
    ensures
        !sanitize_obj_ok(fields, j, max_len),
    decreases i - j,
{
    if j < i {
        lemma_obj_not_ok(fields, max_len, j + 1, i);
    }
}

impl McpRequestValidator {
    /// A validator with the stock sanitizer and payload bound.
    pub fn new() -> (r: Result<McpRequestValidator, ValidationError>)
        ensures
            r is Ok,
            r matches Ok(v) ==> v.max_payload_size == DEFAULT_MAX_PAYLOAD_SIZE
                && v.sanitizer.max_string_length
                == crate::sanitize::DEFAULT_MAX_STRING_LENGTH,
    {
        let sanitizer = match InputSanitizer::new() {
            Ok(s) => s,
            Err(e) => {
                return Err(e);
            },
        };
        Ok(McpRequestValidator { sanitizer, max_payload_size: DEFAULT_MAX_PAYLOAD_SIZE })
    }

    /// Recursively sanitizes every string leaf and object key; the whole
    /// value is rejected exactly when some leaf is rejected.
    #[verifier::loop_isolation(false)]
    pub fn sanitize_request_data(&self, data: &JsonValue) -> (r: Result<JsonValue, ValidationError>)
        ensures
            r is Ok <==> sanitize_ok(*data, self.sanitizer.max_string_length as int),
            r matches Ok(out) ==> sanitize_rel(*data, out),
        decreases *data,
    {
        match data {
            JsonValue::Null => Ok(JsonValue::Null),
            JsonValue::Bool(b) => Ok(JsonValue::Bool(*b)),
            JsonValue::Int(n) => Ok(JsonValue::Int(*n)),
            JsonValue::UInt(n) => Ok(JsonValue::UInt(*n)),
            JsonValue::Double(n) => Ok(JsonValue::Double(*n)),
            JsonValue::Str(s) => match self.sanitizer.sanitize_string(s.as_str(), "request_string") {
                Ok(cs) => Ok(JsonValue::Str(cs)),
                Err(e) => Err(e),
            },
            JsonValue::Arr(items) => {
                let mut out: Vec<JsonValue> = Vec::new();
                let mut i: usize = 0;
                while i < items.len()
                    invariant
                        0 <= i <= items@.len(),
                        out@.len() == i,
                        forall|j: int|
                            0 <= j < i ==> #[trigger] sanitize_ok(
                                items@[j],
                                self.sanitizer.max_string_length as int,
                            ) && sanitize_rel(items@[j], out@[j]),
                    decreases items@.len() - i,
                {
                    proof {
                        broadcast use vstd::std_specs::vec::axiom_vec_decreases_to_view;
                        broadcast use vstd::seq::axiom_seq_index_decreases;

                        assert(decreases_to!(*data => *items));
                        assert(decreases_to!(*items => items@));
                        assert(decreases_to!(items@ => items@[i as int]));
                        assert(decreases_to!(*data => items@[i as int]));
                    }
                    match self.sanitize_request_data(&items[i]) {
                        Ok(x) => {
                            out.push(x);
                        },
                        Err(e) => {
                            proof {
                                lemma_arr_not_ok(
                                    items@,
                                    self.sanitizer.max_string_length as int,
                                    0,
                                    i as int,
                                );
                            }
                            return Err(e);
                        },
                    }
                    i = i + 1;
                }
                proof {
                    lemma_arr_sanitized_from(
                        items@,
                        out@,
                        self.sanitizer.max_string_length as int,
                        0,
                    );
                }
                Ok(JsonValue::Arr(out))
            },
            JsonValue::Obj(fields) => {
                let mut out: Vec<(String, JsonValue)> = Vec::new();
                let mut i: usize = 0;
                while i < fields.len()
                    invariant
                        0 <= i <= fields@.len(),
                        out@.len() == i,
                        forall|j: int|
                            0 <= j < i ==> (#[trigger] fields@[j].0@.len()
                                <= self.sanitizer.max_string_length as int
                                && !contains_dangerous_pattern(fields@[j].0@) && sanitize_ok(
                                fields@[j].1,
                                self.sanitizer.max_string_length as int,
                            ) && out@[j].0@ == trim_spec(strip_spec(fields@[j].0@))
                                && sanitize_rel(fields@[j].1, out@[j].1)),
                    decreases fields@.len() - i,
                {
                    let pair = &fields[i];
                    let key = match self.sanitizer.sanitize_string(pair.0.as_str(), "object_key") {
                        Ok(k) => k,
                        Err(e) => {
                            proof {
                                lemma_obj_not_ok(
                                    fields@,
                                    self.sanitizer.max_string_length as int,
                                    0,
                                    i as int,
                                );
                            }
                            return Err(e);
                        },
                    };
                    proof {
                        broadcast use vstd::std_specs::vec::axiom_vec_decreases_to_view;
                        broadcast use vstd::seq::axiom_seq_index_decreases;

                        assert(decreases_to!(*data => *fields));
                        assert(decreases_to!(*fields => fields@));
                        assert(decreases_to!(fields@ => fields@[i as int]));
                        assert(decreases_to!(fields@[i as int] => fields@[i as int].1));
                        assert(decreases_to!(*data => fields@[i as int].1));
                    }
                    match self.sanitize_request_data(&pair.1) {
                        Ok(x) => {
                            out.push((key, x));
                        },
                        Err(e) => {
                            proof {
                                lemma_obj_not_ok(
                                    fields@,
                                    self.sanitizer.max_string_length as int,
                                    0,
                                    i as int,
                                );
                            }
                            return Err(e);
                        },
                    }
                    i = i + 1;
                }
                proof {
                    lemma_obj_sanitized_from(
                        fields@,
                        out@,
                        self.sanitizer.max_string_length as int,
                        0,
                    );
                }
                Ok(JsonValue::Obj(out))
            },
        }
    }

    /// Judges one envelope: the payload size, the parse outcome, the
    /// protocol version, the per-method structural rule, and the sanitizer
    /// over every string leaf, in that order; the first broken rule decides
    /// the error.
    pub fn validate_request(&self, payload_len: usize, parsed: Option<JsonValue>) -> (r:
        ValidationResult)
        ensures
            payload_len > self.max_payload_size ==> !r.is_valid && r.errors@.len() == 1
                && r.errors@[0]@ == "Request payload too large"@ && r.sanitized_data is None,
            payload_len <= self.max_payload_size && parsed is None ==> !r.is_valid
                && r.errors@.len() == 1 && r.errors@[0]@ == "Invalid JSON format"@
                && r.sanitized_data is None,
            payload_len <= self.max_payload_size ==> (parsed matches Some(v) ==> ({
                if !jsonrpc_version_ok(v) {
                    !r.is_valid && r.errors@.len() == 1 && r.errors@[0]@
                        == "Invalid JSON-RPC version, expected 2.0"@ && r.sanitized_data is None
                } else if !method_known(method_of(v)) {
                    !r.is_valid && r.errors@.len() == 1 && r.errors@[0]@ == "Unknown method"@
                        && r.sanitized_data is None
                } else if !structure_ok(v) {
                    !r.is_valid && r.errors@.len() == 1 && r.sanitized_data is None && (method_of(
                        v,
                    ) == "initialize"@ ==> r.errors@[0]@ == "Missing required fields"@) && (
                    method_of(v) == "tools/call"@ ==> r.errors@[0]@
                        == "Unknown or disallowed tool: "@ + tool_name_of(v))
                } else {
                    &&& (r.is_valid <==> sanitize_ok(
                        v,
                        self.sanitizer.max_string_length as int,
                    ))
                    &&& (r.is_valid ==> (r.sanitized_data matches Some(s) && sanitize_rel(v, s)
                        && r.errors@.len() == 0))
                    &&& (!r.is_valid ==> r.errors@.len() == 1 && r.errors@[0]@
                        == "Input sanitization failed"@ && r.sanitized_data is None)
                }
            })),
    {
        if payload_len > self.max_payload_size {
            return ValidationResult {
                is_valid: false,
                errors: vec![String::from_str("Request payload too large")],
                sanitized_data: None,
            };
        }
        let v = match parsed {
            None => {
                return ValidationResult {
                    is_valid: false,
                    errors: vec![String::from_str("Invalid JSON format")],
                    sanitized_data: None,
                };
            },
            Some(v) => v,
        };
        proof {
            reveal_strlit("");
            reveal_strlit("initialize");
            reveal_strlit("tools/call");
            reveal_strlit("initialized");
            reveal_strlit("health");
            reveal_strlit("performance/metrics");
            reveal_strlit("security/status");
            reveal_strlit("security/audit");
        }
        let version_ok = match get_field_ref(&v, "jsonrpc") {
            Some(JsonValue::Str(s)) => str_eq(s.as_str(), "2.0"),
            _ => false,
        };
        if !version_ok {
            return ValidationResult {
                is_valid: false,
                errors: vec![String::from_str("Invalid JSON-RPC version, expected 2.0")],
                sanitized_data: None,
            };
        }
        let is_initialize: bool;
        let is_tool_call: bool;
        let known: bool;
        match get_field_ref(&v, "method") {
            Some(JsonValue::Str(m)) => {
                let ms = m.as_str();
                assert(ms@ == method_of(v));
                is_initialize = str_eq(ms, "initialize");
                is_tool_call = str_eq(ms, "tools/call");
                known = is_initialize || is_tool_call || str_eq(ms, "initialized") || str_eq(
                    ms,
                    "health",
                ) || str_eq(ms, "performance/metrics") || str_eq(ms, "security/status") || str_eq(
                    ms,
                    "security/audit",
                );
            },
            _ => {
                assert(method_of(v) =~= ""@);
                is_initialize = false;
                is_tool_call = false;
                known = false;
            },
        }
        proof {
            assert("initialize"@[0] == 'i' && "tools/call"@[0] == 't');
            assert("initialize"@ != "tools/call"@);
        }
        assert(known == method_known(method_of(v)));
        assert(is_initialize == (method_of(v) == "initialize"@));
        assert(is_tool_call == (method_of(v) == "tools/call"@));
        if !known {
            return ValidationResult {
                is_valid: false,
                errors: vec![String::from_str("Unknown method")],
                sanitized_data: None,
            };
        }
        if is_initialize {
            let has_method = match get_field_ref(&v, "method") {
                Some(_) => true,
                None => false,
            };
            let has_params = match get_field_ref(&v, "params") {
                Some(_) => true,
                None => false,
            };
            assert(has_method == (get_field(v, "method"@) is Some));
            assert(has_params == (get_field(v, "params"@) is Some));
            if !(has_method && has_params) {
                return ValidationResult {
                    is_valid: false,
                    errors: vec![String::from_str("Missing required fields")],
                    sanitized_data: None,
                };
            }
        }
        if is_tool_call {
            let tool: &str = match get_field_ref(&v, "params") {
                Some(p) => match get_field_ref(p, "name") {
                    Some(JsonValue::Str(s)) => {
                        assert(s@ == tool_name_of(v));
                        s.as_str()
                    },
                    _ => {
                        assert(tool_name_of(v) =~= ""@);
                        ""
                    },
                },
                _ => {
                    assert(tool_name_of(v) =~= ""@);
                    ""
                },
            };
            assert(tool@ == tool_name_of(v));
            let ok = str_eq(tool, "enhanced_query_deepseek") || str_eq(tool, "analyze_files")
                || str_eq(tool, "query_deepseek") || str_eq(tool, "check_deepseek_status")
                || str_eq(tool, "handoff_to_deepseek") || str_eq(tool, "youtu_agent_analyze_files");
            assert(ok == allowed_tool(tool_name_of(v)));
            if !ok {
                let mut msg = String::from_str("Unknown or disallowed tool: ");
                msg.append(tool);
                let mut errs: Vec<String> = Vec::new();
                errs.push(msg);
                return ValidationResult { is_valid: false, errors: errs, sanitized_data: None };
            }
        }
        match self.sanitize_request_data(&v) {
            Ok(s) => ValidationResult { is_valid: true, errors: Vec::new(), sanitized_data: Some(s) },
            Err(_) => ValidationResult {
                is_valid: false,
                errors: vec![String::from_str("Input sanitization failed")],
                sanitized_data: None,
            },
        }
    }
}


/// The views of the string elements, in order, from `i` on.
pub open spec fn extracted_paths(items: Seq<JsonValue>, i: int) -> Seq<Seq<char>>
    decreases items.len() - i when 0 <= i <= items.len()
{
    if i >= items.len() {
        Seq::empty()
    } else {
        match items[i] {
            JsonValue::Str(p) => seq![p@] + extracted_paths(items, i + 1),
            _ => extracted_paths(items, i + 1),
        }
    }
}

/// Every string element from `i` on is an acceptable path.
pub open spec fn paths_ok(items: Seq<JsonValue>, i: int) -> bool
    decreases items.len() - i when 0 <= i <= items.len()
{
    if i >= items.len() {
        true
    } else {
        (match items[i] {
            JsonValue::Str(p) => !contains_traversal(p@) && !path_in_system_dir(p@),
            _ => true,
        }) && paths_ok(items, i + 1)
    }
}

proof fn lemma_paths_not_ok(items: Seq<JsonValue>, j: int, i: int)
    requires
        0 <= j <= i < items.len(),
        !(match items[i] {
            JsonValue::Str(p) => !contains_traversal(p@) && !path_in_system_dir(p@),
            _ => true,
        }),
    ensures
        !paths_ok(items, j),
    decreases i - j,
{
    if j < i {
        lemma_paths_not_ok(items, j + 1, i);
    }
}

/// The largest number of files one request may name.
pub const MAX_FILES_PER_REQUEST: usize = 50;

impl McpRequestValidator {
    /// Validates the file paths of a request: a single path or an array of
    /// them, each free of traversal and system directories, at least one and
    /// at most the per-request bound.
    #[verifier::loop_isolation(false)]
    pub fn validate_file_paths(&self, files: &JsonValue) -> (r: Result<Vec<String>, ValidationError>)
        ensures
            files matches JsonValue::Str(p) ==> ({
                &&& (r is Ok <==> !contains_traversal(p@) && !path_in_system_dir(p@))
                &&& (r matches Ok(ps) ==> ps@.len() == 1 && ps@[0]@ == p@)
            }),
            files matches JsonValue::Arr(items) ==> ({
                let ex = extracted_paths(items@, 0);
                let allok = paths_ok(items@, 0);
                &&& (r is Ok <==> allok && 1 <= ex.len() <= MAX_FILES_PER_REQUEST as int)
                &&& (r matches Ok(ps) ==> ps@.map_values(|s: String| s@) == ex)
                &&& (allok && ex.len() == 0 ==> r == Result::<Vec<String>, ValidationError>::Err(
                    ValidationError::NoValidPaths,
                ))
                &&& (allok && ex.len() > MAX_FILES_PER_REQUEST as int ==> r == Result::<
                    Vec<String>,
                    ValidationError,
                >::Err(ValidationError::TooManyFiles))
            }),
            !(files is Str) && !(files is Arr) ==> r == Result::<Vec<String>, ValidationError>::Err(
                ValidationError::InvalidFilePathsFormat,
            ),
    {
        match files {
            JsonValue::Str(p) => {
                let validated = match self.sanitizer.validate_file_path(p.as_str()) {
                    Ok(v) => v,
                    Err(e) => {
                        return Err(e);
                    },
                };
                let mut out: Vec<String> = Vec::new();
                out.push(validated);
                Ok(out)
            },
            JsonValue::Arr(items) => {
                let mut out: Vec<String> = Vec::new();
                let mut i: usize = 0;
                while i < items.len()
                    invariant
                        0 <= i <= items@.len(),
                        paths_ok(items@, 0) == paths_ok(items@, i as int),
                        extracted_paths(items@, 0) =~= out@.map_values(|s: String| s@)
                            + extracted_paths(items@, i as int),
                    decreases items@.len() - i,
                {
                    let ghost out0 = out@;
                    match &items[i] {
                        JsonValue::Str(p) => {
                            match self.sanitizer.validate_file_path(p.as_str()) {
                                Ok(v) => {
                                    out.push(v);
                                    proof {
                                        assert(out@.map_values(|s: String| s@) =~= out0.map_values(
                                            |s: String| s@,
                                        ).push(items@[i as int]->Str_0@));
                                    }
                                },
                                Err(e) => {
                                    proof {
                                        lemma_paths_not_ok(items@, 0, i as int);
                                    }
                                    return Err(e);
                                },
                            }
                        },
                        _ => (),
                    }
                    i = i + 1;
                }
                proof {
                    assert(extracted_paths(items@, i as int) =~= Seq::<Seq<char>>::empty());
                    assert(out@.map_values(|s: String| s@) =~= extracted_paths(items@, 0));
                }
                if out.len() == 0 {
                    return Err(ValidationError::NoValidPaths);
                }
                if out.len() > MAX_FILES_PER_REQUEST {
                    return Err(ValidationError::TooManyFiles);
                }
                Ok(out)
            },
            _ => Err(ValidationError::InvalidFilePathsFormat),
        }
    }
}

/// Accepts exactly the JSON content type; a missing or different one is
/// named in the error.
pub fn validate_content_type(content_type: Option<&str>) -> (r: Result<(), ValidationError>)
    ensures
        r is Ok <==> (content_type matches Some(ct) && ct@ == "application/json"@),
        content_type is None ==> r == Result::<(), ValidationError>::Err(
            ValidationError::MissingContentType,
        ),
        (content_type matches Some(ct) && ct@ != "application/json"@) ==> r == Result::<
            (),
            ValidationError,
        >::Err(ValidationError::InvalidContentType),
{
    match content_type {
        Some(ct) => {
            if str_eq(ct, "application/json") {
                Ok(())
            } else {
                Err(ValidationError::InvalidContentType)
            }
        },
        None => Err(ValidationError::MissingContentType),
    }
}

/// A request body no larger than the bound is accepted.
pub fn validate_request_size(size: usize, max_size: usize) -> (r: Result<(), ValidationError>)
    ensures
        r is Ok <==> size <= max_size,
{
    if size > max_size {
        Err(ValidationError::RequestTooLarge)
    } else {
        Ok(())
    }
}

} // verus!
