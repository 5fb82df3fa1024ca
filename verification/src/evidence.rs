//! Evidence of tool calls made during a diagnosis: whether a call
//! succeeded, a short summary of what it returned, its error code, and the
//! evidence id written back into what the tool returned.
use vstd::prelude::*;

use crate::json::{bool_of, field_bool, field_str, get, parse_json, parse_json_spec, str_of, JsonValue};
use crate::model::DiagnosisEvidence;
use crate::session::now_millis;
use crate::text::{
    append_chars, append_str, chars_of, concat, contains, contains_chars, ends_with, is_blank,
    is_blank_str, lowercase, replace, replace_chars, slice_chars, starts_with, str_eq, string_of,
    to_lowercase, to_string, trim, trim_bounds, trim_chars, trim_end, trim_end_len,
};

verus! {

/// Characters a summary keeps.
pub const SUMMARY_LIMIT: usize = 500;

/// Characters of the raw tool output that evidence keeps.
pub const RAW_FRAGMENT_LIMIT: usize = 6000;

pub const ELLIPSIS: &'static str = "...";

pub const TOOL_CALL_TYPE: &'static str = "tool_call";

pub const TOOL_CALL_TITLE: &'static str = "工具调用: ";

pub const TOOL_CALL_RANGE: &'static str = "工具调用";

pub const EVIDENCE_ID_PREFIX: &'static str = "ev-";

pub const FAILED_SUMMARY: &'static str = "工具调用失败: ";

pub const EMPTY_SUMMARY: &'static str = "工具调用完成，返回为空";

pub const STATUS_SUMMARY: &'static str = "status=";

pub const FOOTNOTE: &'static str = "\n\n诊断证据ID: ";

pub const ID_FIELD: &'static str = "\"_diagnosisEvidenceId\":\"";

pub const SUCCESS_FIELD: &'static str = "\",\"_diagnosisEvidenceSuccess\":";

pub const FAILURE_MARK: &'static str = "\"success\":false";

/// `s` cut to `limit` characters, with an ellipsis where it was longer.
pub open spec fn truncate_spec(s: Seq<char>, limit: nat) -> Seq<char> {
    if s.len() <= limit {
        s
    } else {
        s.take(limit as int) + ELLIPSIS@
    }
}

/// `value` cut to `limit` characters, with an ellipsis where it was longer.
pub fn truncate(value: &str, limit: usize) -> (r: String)
    ensures
        r@ == truncate_spec(value@, limit as nat),
{
    let chars = chars_of(value);
    if chars.len() <= limit {
        return to_string(value);
    }
    let mut head = slice_chars(&chars, 0, limit);
    assert(head@ =~= value@.take(limit as int));
    append_str(&mut head, ELLIPSIS);
    string_of(&head)
}

/// Whether a status word reports a failure.
pub open spec fn is_failure_status(s: Seq<char>) -> bool {
    let l = lowercase(s);
    l == "error"@ || l == "failed"@ || l == "failure"@
}

/// Whether a tool's output reports success: blank output does; JSON output
/// by its `success` flag, else by its `status` word, else it does; other
/// text unless it holds `"success":false`, ignoring case and spaces.
pub open spec fn detect_success_spec(raw: Seq<char>) -> bool {
    if is_blank(raw) {
        true
    } else {
        match parse_json_spec(raw) {
            Some(v) => match bool_of(get(v, "success"@)) {
                Some(b) => b,
                None => match str_of(get(v, "status"@)) {
                    Some(st) => !is_failure_status(st),
                    None => true,
                },
            },
            None => !contains(replace(lowercase(raw), seq![' '], seq![]), FAILURE_MARK@),
        }
    }
}

/// Whether a tool's output reports success (see `detect_success_spec`).
pub fn detect_success(raw_result: &str) -> (r: bool)
    ensures
        r == detect_success_spec(raw_result@),
{
    if is_blank_str(raw_result) {
        return true;
    }
    match parse_json(raw_result) {
        Some(value) => {
            match field_bool(&value, "success") {
                Some(b) => b,
                None => match field_str(&value, "status") {
                    Some(status) => {
                        let l = to_lowercase(status.as_str());
                        !(str_eq(l.as_str(), "error") || str_eq(l.as_str(), "failed") || str_eq(
                            l.as_str(),
                            "failure",
                        ))
                    },
                    None => true,
                },
            }
        },
        None => {
            let lower = to_lowercase(raw_result);
            let space = vec![' '];
            let nothing: Vec<char> = Vec::new();
            assert(space@ =~= seq![' ']);
            assert(nothing@ =~= Seq::<char>::empty());
            let squeezed = replace_chars(&chars_of(lower.as_str()), &space, &nothing);
            let mark = chars_of(FAILURE_MARK);
            !contains_chars(&squeezed, &mark)
        },
    }
}

/// The summary of a tool call: its error where it failed with one; a fixed
/// note where it returned nothing; else the message, or the status, of its
/// JSON output; else the output itself; at most `SUMMARY_LIMIT` characters.
pub open spec fn summary_spec(raw: Seq<char>, error: Option<Seq<char>>) -> Seq<char> {
    if error is Some && !is_blank(error.unwrap()) {
        truncate_spec(FAILED_SUMMARY@ + error.unwrap(), SUMMARY_LIMIT as nat)
    } else if is_blank(raw) {
        EMPTY_SUMMARY@
    } else {
        let fallback = truncate_spec(raw, SUMMARY_LIMIT as nat);
        match parse_json_spec(raw) {
            Some(v) => match str_of(get(v, "message"@)) {
                Some(m) => if !is_blank(m) {
                    truncate_spec(m, SUMMARY_LIMIT as nat)
                } else {
                    match str_of(get(v, "status"@)) {
                        Some(st) => if !is_blank(st) {
                            truncate_spec(STATUS_SUMMARY@ + st, SUMMARY_LIMIT as nat)
                        } else {
                            fallback
                        },
                        None => fallback,
                    }
                },
                None => match str_of(get(v, "status"@)) {
                    Some(st) => if !is_blank(st) {
                        truncate_spec(STATUS_SUMMARY@ + st, SUMMARY_LIMIT as nat)
                    } else {
                        fallback
                    },
                    None => fallback,
                },
            },
            None => fallback,
        }
    }
}

/// The summary of a tool call (see `summary_spec`).
pub fn summarize(raw_result: &str, error_message: Option<&str>) -> (r: String)
    ensures
        r@ == summary_spec(
            raw_result@,
            match error_message {
                Some(m) => Some(m@),
                None => None,
            },
        ),
{
    match error_message {
        Some(message) => {
            if !is_blank_str(message) {
                let text = concat(FAILED_SUMMARY, message);
                return truncate(text.as_str(), SUMMARY_LIMIT);
            }
        },
        None => {},
    }
    if is_blank_str(raw_result) {
        return to_string(EMPTY_SUMMARY);
    }
    match parse_json(raw_result) {
        Some(value) => {
            match field_str(&value, "message") {
                Some(m) => {
                    if !is_blank_str(m.as_str()) {
                        return truncate(m.as_str(), SUMMARY_LIMIT);
                    }
                },
                None => {},
            }
            match field_str(&value, "status") {
                Some(st) => {
                    if !is_blank_str(st.as_str()) {
                        let text = concat(STATUS_SUMMARY, st.as_str());
                        return truncate(text.as_str(), SUMMARY_LIMIT);
                    }
                },
                None => {},
            }
        },
        None => {},
    }
    truncate(raw_result, SUMMARY_LIMIT)
}

/// The error code a tool's JSON output reports, if it reports one that is
/// not blank.
pub open spec fn error_code_spec(raw: Seq<char>) -> Seq<char> {
    if is_blank(raw) {
        seq![]
    } else {
        match parse_json_spec(raw) {
            Some(v) => match str_of(get(v, "errorCode"@)) {
                Some(c) => if !is_blank(c) {
                    c
                } else {
                    seq![]
                },
                None => seq![],
            },
            None => seq![],
        }
    }
}

/// The error code a tool's output reports (see `error_code_spec`).
pub fn extract_error_code(raw_result: &str) -> (r: String)
    ensures
        r@ == error_code_spec(raw_result@),
{
    if is_blank_str(raw_result) {
        return String::new();
    }
    match parse_json(raw_result) {
        Some(value) => match field_str(&value, "errorCode") {
            Some(code) => {
                if !is_blank_str(code.as_str()) {
                    code
                } else {
                    String::new()
                }
            },
            None => String::new(),
        },
        None => String::new(),
    }
}

/// Whether `s` is a JSON object written out: it begins with `{`, ends with
/// `}` and reads as an object.
pub open spec fn is_json_object_spec(s: Seq<char>) -> bool {
    &&& starts_with(s, seq!['{'])
    &&& ends_with(s, seq!['}'])
    &&& match parse_json_spec(s) {
        Some(JsonValue::Object(_)) => true,
        _ => false,
    }
}

/// Whether `value` is a JSON object written out (see `is_json_object_spec`).
pub fn is_json_object(value: &str) -> (r: bool)
    ensures
        r == is_json_object_spec(value@),
{
    let v = chars_of(value);
    if v.len() == 0 || v[0] != '{' || v[v.len() - 1] != '}' {
        proof {
            if v@.len() > 0 {
                assert(v@.subrange(0, 1)[0] == v@[0]);
                assert(v@.subrange(v@.len() - 1, v@.len() as int)[0] == v@[v@.len() - 1]);
            }
        }
        return false;
    }
    proof {
        assert(v@.subrange(0, 1) =~= seq!['{']);
        assert(v@.subrange(v@.len() - 1, v@.len() as int) =~= seq!['}']);
    }
    match parse_json(value) {
        Some(JsonValue::Object(_)) => true,
        _ => false,
    }
}

/// A tool's output with the evidence id written in: into a JSON object as
/// two last fields, the id and the success flag; else as a footnote.
pub open spec fn decorated_spec(raw: Seq<char>, id: Seq<char>, success: bool) -> Seq<char> {
    let t = trim(raw);
    if is_json_object_spec(t) {
        let body = trim_end(t.take(t.len() - 1));
        let sep: Seq<char> = if ends_with(body, seq!['{']) {
            seq![]
        } else {
            seq![',']
        };
        body + sep + ID_FIELD@ + id + SUCCESS_FIELD@ + (if success {
            "true"@
        } else {
            "false"@
        }) + seq!['}']
    } else {
        raw + FOOTNOTE@ + id
    }
}

/// Writes the evidence id into a tool's output (see `decorated_spec`).
pub fn decorate_result(raw_result: &str, evidence_id: &str, success: bool) -> (r: String)
    ensures
        r@ == decorated_spec(raw_result@, evidence_id@, success),
{
    let trimmed_chars = trim_chars(&chars_of(raw_result));
    let trimmed = string_of(&trimmed_chars);
    if is_json_object(trimmed.as_str()) {
        let n = trimmed_chars.len();
        let k = trim_end_len(&trimmed_chars, n - 1);
        let mut out = slice_chars(&trimmed_chars, 0, k);
        assert(out@ =~= trimmed_chars@.take(k as int));
        let ghost body = out@;
        let ends_with_brace = k > 0 && trimmed_chars[k - 1] == '{';
        proof {
            if k > 0 {
                assert(body[k - 1] == trimmed_chars@[k - 1]);
                assert(body.subrange(k - 1, k as int) =~= seq![body[k - 1]]);
                if body[k - 1] != '{' {
                    assert(body.subrange(k - 1, k as int)[0] != seq!['{'][0]);
                }
            }
        }
        if !ends_with_brace {
            out.push(',');
        }
        let ghost sep: Seq<char> = if ends_with(body, seq!['{']) {
            seq![]
        } else {
            seq![',']
        };
        assert(out@ =~= body + sep);
        append_str(&mut out, ID_FIELD);
        append_str(&mut out, evidence_id);
        append_str(&mut out, SUCCESS_FIELD);
        if success {
            append_str(&mut out, "true");
        } else {
            append_str(&mut out, "false");
        }
        out.push('}');
        proof {
            assert(out@ =~= body + sep + ID_FIELD@ + evidence_id@ + SUCCESS_FIELD@ + (if success {
                "true"@
            } else {
                "false"@
            }) + seq!['}']);
        }
        return string_of(&out);
    }
    let with_note = concat(raw_result, FOOTNOTE);
    concat(with_note.as_str(), evidence_id)
}

/// Whether `s` is 32 lowercase hexadecimal digits.
pub open spec fn is_hex32(s: Seq<char>) -> bool {
    s.len() == 32 && forall|i: int|
        0 <= i < s.len() ==> ('0' <= #[trigger] s[i] <= '9' || 'a' <= s[i] <= 'f')
}

/// Whether `c` is a lowercase hexadecimal digit.
pub open spec fn is_hex_digit(c: char) -> bool {
    '0' <= c <= '9' || 'a' <= c <= 'f'
}

/// A random id (`Uuid::new_v4`) written hyphenated: 36 characters,
/// hyphens at 8, 13, 18 and 23, lowercase hexadecimal digits elsewhere,
/// the version digit `4` at 14 and a variant digit among `8`, `9`, `a`, `b`
/// at 19.
pub open spec fn is_random_uuid_text(s: Seq<char>) -> bool {
    &&& s.len() == 36
    &&& s[8] == '-' && s[13] == '-' && s[18] == '-' && s[23] == '-'
    &&& forall|i: int|
        0 <= i < 36 && i != 8 && i != 13 && i != 18 && i != 23 ==> is_hex_digit(#[trigger] s[i])
    &&& s[14] == '4'
    &&& (s[19] == '8' || s[19] == '9' || s[19] == 'a' || s[19] == 'b')
}

/// A random id (`Uuid::new_v4`) in its simple form: 32 lowercase
/// hexadecimal digits. Which digits is not stated: they are random.
#[verifier::external_body]
fn random_uuid_simple() -> (r: String)
    ensures
        is_hex32(r@),
{
    uuid::Uuid::new_v4().simple().to_string()
}

/// An id made of `prefix` and 12 lowercase hexadecimal digits.
pub open spec fn is_short_id(prefix: Seq<char>, s: Seq<char>) -> bool {
    s.len() == prefix.len() + 12 && s.take(prefix.len() as int) == prefix && forall|i: int|
        prefix.len() <= i < s.len() ==> ('0' <= #[trigger] s[i] <= '9' || 'a' <= s[i] <= 'f')
}

/// A fresh id: `prefix` and the first 12 digits of a random id.
pub fn short_random_id(prefix: &str) -> (r: String)
    ensures
        is_short_id(prefix@, r@),
{
    let u = random_uuid_simple();
    let uc = chars_of(u.as_str());
    let mut out = chars_of(prefix);
    let head = slice_chars(&uc, 0, 12);
    append_chars(&mut out, &head);
    proof {
        assert forall|i: int| prefix@.len() <= i < out@.len() implies ('0' <= #[trigger] out@[i]
            <= '9' || 'a' <= out@[i] <= 'f') by {
            assert(out@[i] == uc@[i - prefix@.len()]);
        }
        assert(out@.take(prefix@.len() as int) =~= prefix@);
    }
    string_of(&out)
}

/// An evidence id: the prefix and 12 hexadecimal digits.
pub open spec fn is_evidence_id(s: Seq<char>) -> bool {
    is_short_id(EVIDENCE_ID_PREFIX@, s)
}

/// A fresh evidence id.
pub fn new_evidence_id() -> (r: String)
    ensures
        is_evidence_id(r@),
{
    short_random_id(EVIDENCE_ID_PREFIX)
}

/// `r` is the evidence of a call of `tool_name` with `query_params` that
/// returned `raw_result` (or failed with `error_message`): a fresh id, the
/// tool and its arguments, the summary and cut result, the outcome and the
/// error code the result names.
pub open spec fn is_tool_evidence(
    r: DiagnosisEvidence,
    tool_name: Seq<char>,
    query_params: Seq<char>,
    raw_result: Seq<char>,
    success: bool,
    error_message: Option<Seq<char>>,
) -> bool {
    &&& is_evidence_id(r.id@)
    &&& r.evidence_type@ == TOOL_CALL_TYPE@
    &&& r.title@ == TOOL_CALL_TITLE@ + tool_name
    &&& r.content@.len() == 0
    &&& r.tool_name@ == tool_name
    &&& r.query_params@ == query_params
    &&& r.time_range@ == TOOL_CALL_RANGE@
    &&& r.summary@ == summary_spec(raw_result, error_message)
    &&& r.raw_fragment@ == truncate_spec(raw_result, RAW_FRAGMENT_LIMIT as nat)
    &&& r.success == success
    &&& r.error_message@ == match error_message {
        Some(m) => m,
        None => Seq::<char>::empty(),
    }
    &&& r.error_code@ == error_code_spec(raw_result)
}

/// The evidence of one tool call: the tool, what it was asked, what it
/// returned (summarized and cut), whether it succeeded, and its error.
pub fn build_tool_evidence(
    tool_name: &str,
    query_params: &str,
    raw_result: &str,
    success: bool,
    error_message: Option<&str>,
) -> (r: DiagnosisEvidence)
    ensures
        is_tool_evidence(
            r,
            tool_name@,
            query_params@,
            raw_result@,
            success,
            match error_message {
                Some(m) => Some(m@),
                None => None,
            },
        ),
{
    DiagnosisEvidence {
        id: new_evidence_id(),
        evidence_type: to_string(TOOL_CALL_TYPE),
        title: concat(TOOL_CALL_TITLE, tool_name),
        content: String::new(),
        tool_name: to_string(tool_name),
        query_params: to_string(query_params),
        time_range: to_string(TOOL_CALL_RANGE),
        summary: summarize(raw_result, error_message),
        raw_fragment: truncate(raw_result, RAW_FRAGMENT_LIMIT),
        success,
        error_message: match error_message {
            Some(m) => to_string(m),
            None => String::new(),
        },
        error_code: extract_error_code(raw_result),
        created_at: now_millis(),
    }
}

} // verus!
