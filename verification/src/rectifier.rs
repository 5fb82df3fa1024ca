//! Repairs of OpenAI Responses payloads whose output items or top-level
//! fields lack the ids and statuses clients expect, in whole responses and
//! in server-sent event streams.
use vstd::prelude::*;

use crate::json::{
    field_slot, field_str, field_u64, find_field, find_key, get, get_field, has_text,
    lemma_find_key, lemma_update_value, obj_field_str, obj_get, parse_json, parse_json_spec,
    parse_json_bytes, parse_json_bytes_spec, json_bytes, to_json_bytes,
    set_field, str_of, to_json_string, json_text, u64_of, JsonValue,
};
use crate::text::{
    chars_of, concat, decimal, find_from, find_idx, lemma_find_idx, lemma_find_idx_bounds,
    lemma_find_idx_shift, occurs_at,
    push_decimal, slice_chars, starts_with, ends_with, str_eq, string_of, to_string, trim_bounds, trim_start,
};

verus! {

pub const MESSAGE_ID_PREFIX: &'static str = "msg_rect_";

pub const CALL_ITEM_ID_PREFIX: &'static str = "fc_rect_";

pub const CALL_ID_PREFIX: &'static str = "call_rect_";

pub const RESPONSE_ID_PREFIX: &'static str = "resp_rect_";

pub const STREAM_RESPONSE_ID: &'static str = "stream";

pub const COMPLETED: &'static str = "completed";

pub const ASSISTANT: &'static str = "assistant";

/// A synthesized id: a prefix, the response id, an underscore and the
/// position of the output item.
pub open spec fn synthesized_id(prefix: Seq<char>, response_id: Seq<char>, index: nat) -> Seq<char> {
    prefix + response_id + "_"@ + decimal(index)
}

fn make_id(prefix: &str, response_id: &str, index: u64) -> (r: String)
    ensures
        r@ == synthesized_id(prefix@, response_id@, index as nat),
{
    let mut v = chars_of(prefix);
    crate::text::append_str(&mut v, response_id);
    crate::text::append_str(&mut v, "_");
    push_decimal(&mut v, index);
    assert(v@ =~= synthesized_id(prefix@, response_id@, index as nat));
    string_of(&v)
}

/// The field names the repairs touch are told apart by their length or
/// their first letters.
proof fn lemma_field_names()
    ensures
        "id"@.len() == 2,
        "role"@.len() == 4 && "role"@[0] == 'r',
        "type"@.len() == 4 && "type"@[0] == 't',
        "item"@.len() == 4 && "item"@[0] == 'i',
        "status"@.len() == 6 && "status"@[0] == 's',
        "output"@.len() == 6 && "output"@[0] == 'o',
        "content"@.len() == 7 && "content"@[1] == 'o',
        "call_id"@.len() == 7 && "call_id"@[1] == 'a',
        "response"@.len() == 8,
        "response_id"@.len() == 11,
        "output_index"@.len() == 12,
{
    reveal_strlit("id");
    reveal_strlit("role");
    reveal_strlit("type");
    reveal_strlit("item");
    reveal_strlit("status");
    reveal_strlit("output");
    reveal_strlit("content");
    reveal_strlit("call_id");
    reveal_strlit("response");
    reveal_strlit("response_id");
    reveal_strlit("output_index");
}

/// The field `key` keeps a text it had, else holds `text`.
pub open spec fn field_ensured(
    old: Seq<(String, JsonValue)>,
    new: Seq<(String, JsonValue)>,
    key: Seq<char>,
    text: Seq<char>,
) -> bool {
    if has_text(old, key) {
        obj_get(new, key) == obj_get(old, key)
    } else {
        str_of(obj_get(new, key)) == Some(text)
    }
}

/// Gives the field `field` the text `value` unless it holds a text already.
pub fn ensure_string_field(object: &mut Vec<(String, JsonValue)>, field: &str, value: String)
    ensures
        field_ensured(old(object)@, final(object)@, field@, value@),
        forall|k: Seq<char>| k != field@ ==> obj_get(final(object)@, k) == obj_get(old(object)@, k),
{
    let has_value = match obj_field_str(object, field) {
        Some(s) => !s.as_str().is_empty(),
        None => false,
    };
    if !has_value {
        set_field(object, field, JsonValue::Str(value));
    }
}

/// What a message item is given: an id, the assistant role, a completed
/// status and, where it has none, empty content.
pub open spec fn message_fields(
    old: Seq<(String, JsonValue)>,
    new: Seq<(String, JsonValue)>,
    response_id: Seq<char>,
    index: nat,
) -> bool {
    &&& field_ensured(old, new, "id"@, synthesized_id(MESSAGE_ID_PREFIX@, response_id, index))
    &&& field_ensured(old, new, "role"@, ASSISTANT@)
    &&& field_ensured(old, new, "status"@, COMPLETED@)
    &&& match obj_get(old, "content"@) {
        None | Some(JsonValue::Null) => match obj_get(new, "content"@) {
            Some(JsonValue::Array(a)) => a@.len() == 0,
            _ => false,
        },
        c => obj_get(new, "content"@) == c,
    }
    &&& forall|k: Seq<char>|
        k != "id"@ && k != "role"@ && k != "status"@ && k != "content"@ ==> obj_get(new, k)
            == obj_get(old, k)
}

/// What a function call item is given: an item id, a call id and a
/// completed status.
pub open spec fn call_fields(
    old: Seq<(String, JsonValue)>,
    new: Seq<(String, JsonValue)>,
    response_id: Seq<char>,
    index: nat,
) -> bool {
    &&& field_ensured(old, new, "id"@, synthesized_id(CALL_ITEM_ID_PREFIX@, response_id, index))
    &&& field_ensured(old, new, "call_id"@, synthesized_id(CALL_ID_PREFIX@, response_id, index))
    &&& field_ensured(old, new, "status"@, COMPLETED@)
    &&& forall|k: Seq<char>|
        k != "id"@ && k != "call_id"@ && k != "status"@ ==> obj_get(new, k) == obj_get(old, k)
}

/// Repairs a message item of the response `response_id`.
pub fn rectify_message_item(object: &mut Vec<(String, JsonValue)>, response_id: &str, output_index: u64)
    ensures
        message_fields(old(object)@, final(object)@, response_id@, output_index as nat),
{
    proof {
        lemma_field_names();
    }
    ensure_string_field(object, "id", make_id(MESSAGE_ID_PREFIX, response_id, output_index));
    ensure_string_field(object, "role", to_string(ASSISTANT));
    ensure_string_field(object, "status", to_string(COMPLETED));
    let needs_content = match find_field(object, "content") {
        None => true,
        Some(i) => match &object[i].1 {
            JsonValue::Null => true,
            _ => false,
        },
    };
    if needs_content {
        set_field(object, "content", JsonValue::Array(Vec::new()));
    }
}

/// Repairs a function call item of the response `response_id`.
pub fn rectify_function_call_item(
    object: &mut Vec<(String, JsonValue)>,
    response_id: &str,
    output_index: u64,
)
    ensures
        call_fields(old(object)@, final(object)@, response_id@, output_index as nat),
{
    proof {
        lemma_field_names();
    }
    ensure_string_field(object, "id", make_id(CALL_ITEM_ID_PREFIX, response_id, output_index));
    ensure_string_field(object, "call_id", make_id(CALL_ID_PREFIX, response_id, output_index));
    ensure_string_field(object, "status", to_string(COMPLETED));
}

/// How an output item is repaired: a message or a function call by its
/// kind; anything else is left as it is.
pub open spec fn item_rectified(old: JsonValue, new: JsonValue, response_id: Seq<char>, index: nat) -> bool {
    match old {
        JsonValue::Object(f) => {
            let t = str_of(obj_get(f@, "type"@));
            if t == Some("message"@) {
                match new {
                    JsonValue::Object(g) => message_fields(f@, g@, response_id, index),
                    _ => false,
                }
            } else if t == Some("function_call"@) {
                match new {
                    JsonValue::Object(g) => call_fields(f@, g@, response_id, index),
                    _ => false,
                }
            } else {
                new == old
            }
        },
        _ => new == old,
    }
}

/// Repairs the output item at `output_index` of the response `response_id`.
pub fn rectify_output_item(item: &mut JsonValue, response_id: &str, output_index: u64)
    ensures
        item_rectified(*old(item), *final(item), response_id@, output_index as nat),
{
    match item {
        JsonValue::Object(object) => {
            match obj_field_str(object, "type") {
                Some(t) => {
                    if str_eq(t.as_str(), "message") {
                        rectify_message_item(object, response_id, output_index);
                    } else if str_eq(t.as_str(), "function_call") {
                        rectify_function_call_item(object, response_id, output_index);
                    }
                },
                None => {},
            }
        },
        _ => {},
    }
}


/// Whether `s` is 16 lowercase hexadecimal digits.
pub open spec fn is_hex16(s: Seq<char>) -> bool {
    s.len() == 16 && forall|i: int|
        0 <= i < s.len() ==> ('0' <= #[trigger] s[i] <= '9' || 'a' <= s[i] <= 'f')
}

/// The digest `DefaultHasher::new()` computes of the string `input`,
/// written as 16 lowercase hexadecimal digits
/// (`format!("{:016x}", hasher.finish())`).
pub uninterp spec fn default_hash_hex(input: Seq<char>) -> Seq<char>;

/// The top-level response id the repair makes up from `seed`: the prefix
/// and the 16 hexadecimal digits of the seed's digest.
pub open spec fn is_made_up_response_id(t: Seq<char>, seed: Seq<char>) -> bool {
    &&& t == RESPONSE_ID_PREFIX@ + default_hash_hex(seed)
    &&& t.len() == RESPONSE_ID_PREFIX@.len() + 16
    &&& is_hex16(t.skip(RESPONSE_ID_PREFIX@.len() as int))
}

/// The digest `DefaultHasher` computes of `input`, as 16 lowercase
/// hexadecimal digits. Every `DefaultHasher::new()` starts from the same
/// keys, so the digest depends on `input` alone.
#[verifier::external_body]
fn stable_hash(input: &str) -> (r: String)
    ensures
        r@ == default_hash_hex(input@),
        is_hex16(r@),
{
    let mut hasher = std::collections::hash_map::DefaultHasher::new();
    std::hash::Hash::hash(input, &mut hasher);
    format!("{:016x}", std::hash::Hasher::finish(&hasher))
}

/// The id of a response: the one it has, or one made up from `seed` and
/// written into it.
pub fn ensure_response_id(value: &mut JsonValue, seed: &str) -> (id: String)
    ensures
        match *old(value) {
            JsonValue::Object(f) => match *final(value) {
                JsonValue::Object(g) => if has_text(f@, "id"@) {
                    Some(id@) == str_of(obj_get(f@, "id"@)) && g@ == f@
                } else {
                    is_made_up_response_id(id@, seed@) && str_of(obj_get(g@, "id"@)) == Some(id@)
                        && forall|k: Seq<char>| k != "id"@ ==> obj_get(g@, k) == obj_get(f@, k)
                },
                _ => false,
            },
            _ => *final(value) == *old(value) && is_made_up_response_id(id@, seed@),
        },
{
    match field_str(value, "id") {
        Some(id) => {
            if !id.as_str().is_empty() {
                return id;
            }
        },
        None => {},
    }
    let hash = stable_hash(seed);
    let id = concat(RESPONSE_ID_PREFIX, hash.as_str());
    assert(id@.skip(RESPONSE_ID_PREFIX@.len() as int) =~= hash@);
    assert(id@.take(RESPONSE_ID_PREFIX@.len() as int) =~= RESPONSE_ID_PREFIX@);
    match value {
        JsonValue::Object(object) => {
            set_field(object, "id", JsonValue::Str(id.clone()));
        },
        _ => {},
    }
    id
}

/// Gives a response the completed status unless it has a status.
pub fn ensure_response_status(value: &mut JsonValue)
    ensures
        match *old(value) {
            JsonValue::Object(f) => match *final(value) {
                JsonValue::Object(g) => field_ensured(f@, g@, "status"@, COMPLETED@) && forall|
                    k: Seq<char>,
                | k != "status"@ ==> obj_get(g@, k) == obj_get(f@, k),
                _ => false,
            },
            _ => *final(value) == *old(value),
        },
{
    match value {
        JsonValue::Object(object) => {
            ensure_string_field(object, "status", to_string(COMPLETED));
        },
        _ => {},
    }
}

/// The output items, each repaired at its position.
pub open spec fn outputs_rectified(old: Option<JsonValue>, new: Option<JsonValue>, response_id: Seq<char>) -> bool {
    match old {
        Some(JsonValue::Array(items)) => match new {
            Some(JsonValue::Array(items2)) => items2@.len() == items@.len() && forall|i: int|
                0 <= i < items@.len() ==> item_rectified(
                    #[trigger] items@[i],
                    items2@[i],
                    response_id,
                    i as nat,
                ),
            _ => false,
        },
        _ => new == old,
    }
}

/// How a whole response is repaired: its id, its status and each output
/// item; a value that is not an object is left as it is.
pub open spec fn response_rectified(old: JsonValue, new: JsonValue, seed: Seq<char>) -> bool {
    match old {
        JsonValue::Object(f) => match new {
            JsonValue::Object(g) => {
                &&& if has_text(f@, "id"@) {
                    obj_get(g@, "id"@) == obj_get(f@, "id"@)
                } else {
                    match str_of(obj_get(g@, "id"@)) {
                        Some(t) => is_made_up_response_id(t, seed),
                        None => false,
                    }
                }
                &&& field_ensured(f@, g@, "status"@, COMPLETED@)
                &&& str_of(obj_get(g@, "id"@)) is Some
                &&& outputs_rectified(
                    obj_get(f@, "output"@),
                    obj_get(g@, "output"@),
                    str_of(obj_get(g@, "id"@)).unwrap(),
                )
                &&& forall|k: Seq<char>|
                    k != "id"@ && k != "status"@ && k != "output"@ ==> obj_get(g@, k) == obj_get(
                        f@,
                        k,
                    )
            },
            _ => false,
        },
        _ => new == old,
    }
}

fn rectify_items(items: &mut Vec<JsonValue>, response_id: &str)
    ensures
        final(items)@.len() == old(items)@.len(),
        forall|i: int|
            0 <= i < old(items)@.len() ==> item_rectified(
                #[trigger] old(items)@[i],
                final(items)@[i],
                response_id@,
                i as nat,
            ),
{
    let ghost pre = items@;
    let n = items.len();
    assert(n <= u64::MAX);
    let mut i: usize = 0;
    while i < n
        invariant
            i <= n,
            n == pre.len(),
            items@.len() == pre.len(),
            n <= u64::MAX,
            forall|j: int| i <= j < pre.len() ==> items@[j] == pre[j],
            forall|j: int|
                0 <= j < i ==> item_rectified(#[trigger] pre[j], items@[j], response_id@, j as nat),
        decreases pre.len() - i,
    {
        rectify_output_item(&mut items[i], response_id, i as u64);
        i = i + 1;
    }
}

/// Repairs a whole response; `seed` is what a made-up id is derived from.
pub fn rectify_response_value(value: &mut JsonValue, seed: &str)
    ensures
        response_rectified(*old(value), *final(value), seed@),
{
    proof {
        lemma_field_names();
    }
    let is_object = match value {
        JsonValue::Object(_) => true,
        _ => false,
    };
    if !is_object {
        return;
    }
    let response_id = ensure_response_id(value, seed);
    ensure_response_status(value);
    match value {
        JsonValue::Object(object) => {
            match find_field(object, "output") {
                Some(i) => {
                    let ghost pre = object@;
                    let slot = field_slot(object, i);
                    match slot {
                        JsonValue::Array(items) => {
                            rectify_items(items, response_id.as_str());
                        },
                        _ => {},
                    }
                    proof {
                        lemma_update_value(pre, i as int, object@[i as int].1);
                        lemma_find_key(pre, "output"@, 0);
                        lemma_find_key(object@, "output"@, 0);
                        lemma_find_key(pre, "id"@, 0);
                        lemma_find_key(pre, "status"@, 0);
                        assert forall|k: Seq<char>| k != "output"@ implies obj_get(object@, k)
                            == obj_get(pre, k) by {
                            lemma_find_key(pre, k, 0);
                        }
                    }
                },
                None => {},
            }
        },
        _ => {},
    }
}


// ---------------------------------------------------------------------------
// Server-sent events
// ---------------------------------------------------------------------------

pub const ITEM_ADDED: &'static str = "response.output_item.added";

pub const ITEM_DONE: &'static str = "response.output_item.done";

pub const RESPONSE_COMPLETED: &'static str = "response.completed";

pub const RESPONSE_INCOMPLETE: &'static str = "response.incomplete";

pub const RESPONSE_FAILED: &'static str = "response.failed";

/// `new` is an object with a field `key`, and its other fields are those
/// of `f`.
pub open spec fn only_field_changed(
    f: Seq<(String, JsonValue)>,
    new: JsonValue,
    key: Seq<char>,
) -> bool {
    match new {
        JsonValue::Object(g) => obj_get(g@, key) is Some && forall|k: Seq<char>|
            k != key ==> obj_get(g@, k) == obj_get(f, k),
        _ => false,
    }
}

/// How the payload of an event is repaired: the item of an output item
/// event, the response of a final response event; other payloads are left
/// as they are.
pub open spec fn sse_value_rectified(old: JsonValue, new: JsonValue, seed: Seq<char>) -> bool {
    match old {
        JsonValue::Object(f) => {
            let t = str_of(obj_get(f@, "type"@));
            if t == Some(ITEM_ADDED@) || t == Some(ITEM_DONE@) {
                let rid = match str_of(obj_get(f@, "response_id"@)) {
                    Some(r) => r,
                    None => STREAM_RESPONSE_ID@,
                };
                let idx = match u64_of(obj_get(f@, "output_index"@)) {
                    Some(n) => n,
                    None => 0,
                };
                match obj_get(f@, "item"@) {
                    Some(it) => only_field_changed(f@, new, "item"@) && item_rectified(
                        it,
                        get(new, "item"@).unwrap(),
                        rid,
                        idx as nat,
                    ),
                    None => new == old,
                }
            } else if t == Some(RESPONSE_COMPLETED@) || t == Some(RESPONSE_INCOMPLETE@) || t == Some(
                RESPONSE_FAILED@,
            ) {
                match obj_get(f@, "response"@) {
                    Some(r) => only_field_changed(f@, new, "response"@) && response_rectified(
                        r,
                        get(new, "response"@).unwrap(),
                        seed,
                    ),
                    None => new == old,
                }
            } else {
                new == old
            }
        },
        _ => new == old,
    }
}

fn is_one_of(t: &Option<String>, a: &str, b: &str, c: &str) -> (r: bool)
    ensures
        r == (match t {
            Some(s) => s@ == a@ || s@ == b@ || s@ == c@,
            None => false,
        }),
{
    match t {
        Some(s) => str_eq(s.as_str(), a) || str_eq(s.as_str(), b) || str_eq(s.as_str(), c),
        None => false,
    }
}

/// Repairs the payload of an event; `seed` is what a made-up response id
/// is derived from.
pub fn rectify_sse_value(value: &mut JsonValue, seed: &str)
    ensures
        sse_value_rectified(*old(value), *final(value), seed@),
{
    proof {
        lemma_field_names();
    }
    let t = field_str(value, "type");
    let is_item = is_one_of(&t, ITEM_ADDED, ITEM_DONE, ITEM_DONE);
    let is_response = is_one_of(&t, RESPONSE_COMPLETED, RESPONSE_INCOMPLETE, RESPONSE_FAILED);
    if is_item {
        let response_id = match field_str(value, "response_id") {
            Some(r) => r,
            None => to_string(STREAM_RESPONSE_ID),
        };
        let output_index = match field_u64(value, "output_index") {
            Some(n) => n,
            None => 0,
        };
        match value {
            JsonValue::Object(object) => match find_field(object, "item") {
                Some(i) => {
                    let ghost pre = object@;
                    let slot = field_slot(object, i);
                    rectify_output_item(slot, response_id.as_str(), output_index);
                    proof {
                        lemma_update_value(pre, i as int, object@[i as int].1);
                        lemma_find_key(pre, "item"@, 0);
                        assert forall|k: Seq<char>| k != "item"@ implies obj_get(object@, k)
                            == obj_get(pre, k) by {
                            lemma_find_key(pre, k, 0);
                        }
                    }
                },
                None => {},
            },
            _ => {},
        }
    } else if is_response {
        match value {
            JsonValue::Object(object) => match find_field(object, "response") {
                Some(i) => {
                    let ghost pre = object@;
                    let slot = field_slot(object, i);
                    rectify_response_value(slot, seed);
                    proof {
                        lemma_update_value(pre, i as int, object@[i as int].1);
                        lemma_find_key(pre, "response"@, 0);
                        assert forall|k: Seq<char>| k != "response"@ implies obj_get(object@, k)
                            == obj_get(pre, k) by {
                            lemma_find_key(pre, k, 0);
                        }
                    }
                },
                None => {},
            },
            _ => {},
        }
    }
}


pub open spec fn data_prefix() -> Seq<char> {
    seq!['d', 'a', 't', 'a', ':']
}

pub open spec fn done_marker() -> Seq<char> {
    seq!['[', 'D', 'O', 'N', 'E', ']']
}

/// A line without its line ending, and the ending: CR LF, LF or nothing.
pub open spec fn line_ending_split(line: Seq<char>) -> (Seq<char>, Seq<char>) {
    if line.len() >= 2 && line[line.len() - 2] == '\r' && line[line.len() - 1] == '\n' {
        (line.take(line.len() - 2), seq!['\r', '\n'])
    } else if line.len() >= 1 && line[line.len() - 1] == '\n' {
        (line.take(line.len() - 1), seq!['\n'])
    } else {
        (line, seq![])
    }
}

/// Splits a line into its body and its line ending.
pub fn split_line_ending(line: &Vec<char>) -> (r: (Vec<char>, Vec<char>))
    ensures
        (r.0@, r.1@) == line_ending_split(line@),
{
    let n = line.len();
    if n >= 2 && line[n - 2] == '\r' && line[n - 1] == '\n' {
        let body = slice_chars(line, 0, n - 2);
        assert(body@ =~= line@.take(n - 2));
        let ending = vec!['\r', '\n'];
        assert(ending@ =~= seq!['\r', '\n']);
        (body, ending)
    } else if n >= 1 && line[n - 1] == '\n' {
        let body = slice_chars(line, 0, n - 1);
        assert(body@ =~= line@.take(n - 1));
        let ending = vec!['\n'];
        assert(ending@ =~= seq!['\n']);
        (body, ending)
    } else {
        let body = slice_chars(line, 0, n);
        assert(body@ =~= line@);
        (body, Vec::new())
    }
}

/// How one line of an event is repaired: a `data:` line holding JSON has
/// its payload repaired and written again, keeping the space after the
/// colon and the line ending; any other line is kept.
pub open spec fn line_rectified(line: Seq<char>, out: Seq<char>) -> bool {
    let (body, ending) = line_ending_split(line);
    if !starts_with(body, data_prefix()) {
        out == line
    } else {
        let data = body.skip(5);
        let lead: Seq<char> = if data.len() > 0 && data[0] == ' ' {
            seq![' ']
        } else {
            seq![]
        };
        let payload = trim_start(data);
        if payload.len() == 0 || payload == done_marker() {
            out == line
        } else {
            match parse_json_spec(payload) {
                None => out == line,
                Some(v) => exists|v2: JsonValue|
                    sse_value_rectified(v, v2, payload) && out == data_prefix() + lead + json_text(v2)
                        + ending,
            }
        }
    }
}

/// Repairs one line of an event.
pub fn rectify_sse_line(line: &str) -> (r: String)
    ensures
        line_rectified(line@, r@),
{
    let v = chars_of(line);
    let (body, ending) = split_line_ending(&v);
    let prefix = vec!['d', 'a', 't', 'a', ':'];
    assert(prefix@ =~= data_prefix());
    if body.len() < 5 || !crate::text::matches_at(&body, &prefix, 0) {
        proof {
            if body@.len() >= 5 {
                assert(!starts_with(body@, data_prefix()));
            }
        }
        return to_string(line);
    }
    let data = slice_chars(&body, 5, body.len());
    assert(data@ =~= body@.skip(5));
    let has_lead = data.len() > 0 && data[0] == ' ';
    let (lo, _hi) = trim_bounds(&data);
    let payload = slice_chars(&data, lo, data.len());
    assert(payload@ =~= data@.skip(lo as int));
    let done = vec!['[', 'D', 'O', 'N', 'E', ']'];
    assert(done@ =~= done_marker());
    if payload.len() == 0 || crate::text::chars_eq(&payload, &done) {
        return to_string(line);
    }
    let payload_text = string_of(&payload);
    match parse_json(payload_text.as_str()) {
        None => to_string(line),
        Some(mut value) => {
            let ghost v0 = value;
            rectify_sse_value(&mut value, payload_text.as_str());
            let serialized = to_json_string(&value);
            let mut out = prefix;
            if has_lead {
                out.push(' ');
            }
            crate::text::append_str(&mut out, serialized.as_str());
            crate::text::append_chars(&mut out, &ending);
            proof {
                let lead: Seq<char> = if has_lead {
                    seq![' ']
                } else {
                    seq![]
                };
                assert(out@ =~= data_prefix() + lead + json_text(value) + ending@);
            }
            string_of(&out)
        },
    }
}

/// The lines of `s`, each with its line feed (`str::split_inclusive`).
pub open spec fn lines_inclusive(s: Seq<char>) -> Seq<Seq<char>>
    decreases s.len(),
{
    match find_idx(s, seq!['\n'], 0) {
        Some(i) => {
            proof {
                lemma_find_idx_bounds(s, seq!['\n'], 0);
            }
            seq![s.take(i + 1)] + lines_inclusive(s.skip(i + 1))
        },
        None => if s.len() == 0 {
            seq![]
        } else {
            seq![s]
        },
    }
}

/// The parts, one after the other.
pub open spec fn flatten(parts: Seq<Seq<char>>) -> Seq<char>
    decreases parts.len(),
{
    if parts.len() == 0 {
        seq![]
    } else {
        flatten(parts.drop_last()) + parts.last()
    }
}

/// How an event is repaired: line by line.
pub open spec fn event_rectified(ev: Seq<char>, out: Seq<char>) -> bool {
    exists|outs: Seq<Seq<char>>|
        outs.len() == lines_inclusive(ev).len() && (forall|i: int|
            0 <= i < outs.len() ==> line_rectified(lines_inclusive(ev)[i], #[trigger] outs[i]))
            && out == flatten(outs)
}

/// Repairs one event of a stream, line by line.
pub fn rectify_sse_event(event: &str) -> (r: String)
    ensures
        event_rectified(event@, r@),
{
    let v = chars_of(event);
    let nl = vec!['\n'];
    assert(nl@ =~= seq!['\n']);
    let mut out: Vec<char> = Vec::new();
    let ghost mut outs: Seq<Seq<char>> = seq![];
    let ghost mut done: Seq<Seq<char>> = seq![];
    let mut pos: usize = 0;
    assert(v@.skip(0) =~= v@);
    while pos < v.len()
        invariant
            pos <= v.len(),
            v@ == event@,
            nl@ == seq!['\n'],
            done + lines_inclusive(v@.skip(pos as int)) == lines_inclusive(v@),
            outs.len() == done.len(),
            forall|i: int| 0 <= i < outs.len() ==> line_rectified(done[i], #[trigger] outs[i]),
            out@ == flatten(outs),
        decreases v.len() - pos,
    {
        let ghost rest = v@.skip(pos as int);
        let found = find_from(&v, &nl, pos);
        proof {
            lemma_find_idx_shift(v@, nl@, pos as int);
            lemma_find_idx_bounds(v@, nl@, pos as int);
        }
        let end: usize = match found {
            Some(i) => i + 1,
            None => v.len(),
        };
        let piece = slice_chars(&v, pos, end);
        proof {
            assert(piece@ =~= rest.take(end - pos));
            assert(rest.skip(end - pos) =~= v@.skip(end as int));
            if found is None {
                assert(rest.len() > 0);
                assert(lines_inclusive(rest) =~= seq![piece@]);
                assert(v@.skip(end as int).len() == 0);
                assert(lines_inclusive(v@.skip(end as int)) =~= Seq::<Seq<char>>::empty());
            }
            assert(lines_inclusive(rest) =~= seq![piece@] + lines_inclusive(v@.skip(end as int)));
        }
        let line = string_of(&piece);
        let fixed = rectify_sse_line(line.as_str());
        crate::text::append_str(&mut out, fixed.as_str());
        proof {
            let pre_outs = outs;
            done = done.push(piece@);
            outs = outs.push(fixed@);
            assert(outs.drop_last() =~= pre_outs);
            assert(done + lines_inclusive(v@.skip(end as int)) =~= lines_inclusive(v@)) by {
                assert(done =~= (done.drop_last()).push(piece@));
            }
        }
        pos = end;
    }
    proof {
        assert(v@.skip(pos as int).len() == 0);
        assert(done =~= lines_inclusive(v@));
    }
    string_of(&out)
}


pub open spec fn crlf_separator() -> Seq<char> {
    seq!['\r', '\n', '\r', '\n']
}

pub open spec fn lf_separator() -> Seq<char> {
    seq!['\n', '\n']
}

/// Where the first event of `s` ends, and the blank line that ends it: the
/// earlier of a CR LF CR LF and a LF LF.
pub open spec fn event_separator(s: Seq<char>) -> Option<(int, Seq<char>)> {
    match (find_idx(s, crlf_separator(), 0), find_idx(s, lf_separator(), 0)) {
        (Some(c), Some(l)) => if c < l {
            Some((c, crlf_separator()))
        } else {
            Some((l, lf_separator()))
        },
        (Some(c), None) => Some((c, crlf_separator())),
        (None, Some(l)) => Some((l, lf_separator())),
        (None, None) => None,
    }
}

pub proof fn lemma_event_separator_bounds(s: Seq<char>)
    ensures
        match event_separator(s) {
            Some((i, sep)) => 0 <= i && i + sep.len() <= s.len() && sep.len() > 0 && s.subrange(
                i,
                i + sep.len(),
            ) == sep,
            None => true,
        },
{
    lemma_find_idx_bounds(s, crlf_separator(), 0);
    lemma_find_idx_bounds(s, lf_separator(), 0);
    match event_separator(s) {
        Some((i, sep)) => {
            assert(s.subrange(i, i + sep.len()) =~= sep);
        },
        None => {},
    }
}

/// The complete events of `s`, each with the blank line that ends it, and
/// what is left after the last of them.
pub open spec fn split_events(s: Seq<char>) -> (Seq<(Seq<char>, Seq<char>)>, Seq<char>)
    decreases s.len(),
{
    match event_separator(s) {
        Some((i, sep)) => {
            proof {
                lemma_event_separator_bounds(s);
            }
            let rest = split_events(s.skip(i + sep.len()));
            (seq![(s.take(i), sep)] + rest.0, rest.1)
        },
        None => (seq![], s),
    }
}

/// Where `p` first occurs from `from` on, nothing before it matches.
proof fn lemma_find_idx_first(s: Seq<char>, p: Seq<char>, from: int)
    requires
        0 <= from,
    ensures
        match find_idx(s, p, from) {
            Some(i) => forall|j: int| from <= j < i ==> !occurs_at(s, p, j),
            None => forall|j: int| from <= j ==> !occurs_at(s, p, j),
        },
    decreases s.len() + 1 - from,
{
    if from + p.len() > s.len() {
    } else if !occurs_at(s, p, from) {
        lemma_find_idx_first(s, p, from + 1);
    }
}

/// Text appended after `a` does not move the first occurrence found in
/// `a`; where `a` has none, one in `a + b` reaches past `a`.
proof fn lemma_find_extend(a: Seq<char>, b: Seq<char>, p: Seq<char>)
    ensures
        match find_idx(a, p, 0) {
            Some(k) => find_idx(a + b, p, 0) == Some(k),
            None => match find_idx(a + b, p, 0) {
                Some(j) => j + p.len() > a.len(),
                None => true,
            },
        },
{
    let ab = a + b;
    assert forall|j: int| 0 <= j && j + p.len() <= a.len() implies occurs_at(ab, p, j) == occurs_at(
        a,
        p,
        j,
    ) by {
        assert(ab.subrange(j, j + p.len()) =~= a.subrange(j, j + p.len()));
    }
    lemma_find_idx_bounds(a, p, 0);
    lemma_find_idx_first(a, p, 0);
    lemma_find_idx_bounds(ab, p, 0);
    match find_idx(a, p, 0) {
        Some(k) => {
            lemma_find_idx(ab, p, 0, Some(k));
        },
        None => {},
    }
}

/// The character at `i` of a text where `p` occurs at `j`.
proof fn lemma_occurs_char(s: Seq<char>, p: Seq<char>, j: int, i: int)
    requires
        occurs_at(s, p, j),
        j <= i < j + p.len(),
    ensures
        s[i] == p[i - j],
{
    assert(s.subrange(j, j + p.len())[i - j] == s[i]);
}

/// Text appended after `a` does not change where the first event of `a`
/// ends.
proof fn lemma_separator_extend(a: Seq<char>, b: Seq<char>)
    ensures
        event_separator(a) is Some ==> event_separator(a + b) == event_separator(a),
{
    let ab = a + b;
    lemma_find_extend(a, b, crlf_separator());
    lemma_find_extend(a, b, lf_separator());
    lemma_find_idx_bounds(a, crlf_separator(), 0);
    lemma_find_idx_bounds(a, lf_separator(), 0);
    lemma_find_idx_bounds(ab, crlf_separator(), 0);
    match (find_idx(a, crlf_separator(), 0), find_idx(a, lf_separator(), 0)) {
        (None, Some(l)) => {
            match find_idx(ab, crlf_separator(), 0) {
                Some(j) => {
                    if j <= l {
                        lemma_occurs_char(a, lf_separator(), l, l);
                        lemma_occurs_char(a, lf_separator(), l, l + 1);
                        if j == l {
                            lemma_occurs_char(ab, crlf_separator(), j, l);
                            assert(ab[l] == a[l]);
                        } else {
                            lemma_occurs_char(ab, crlf_separator(), j, l + 1);
                            assert(ab[l + 1] == a[l + 1]);
                        }
                    }
                },
                None => {},
            }
        },
        _ => {},
    }
}

/// Splitting a text into events is splitting its beginning, then what is
/// left of it followed by the rest.
proof fn lemma_split_events_concat(a: Seq<char>, b: Seq<char>)
    ensures
        split_events(a + b).0 == split_events(a).0 + split_events(split_events(a).1 + b).0,
        split_events(a + b).1 == split_events(split_events(a).1 + b).1,
    decreases a.len(),
{
    lemma_separator_extend(a, b);
    match event_separator(a) {
        Some((i, sep)) => {
            lemma_event_separator_bounds(a);
            let rest = a.skip(i + sep.len());
            assert((a + b).skip(i + sep.len()) =~= rest + b);
            assert((a + b).take(i) =~= a.take(i));
            lemma_split_events_concat(rest, b);
            assert(split_events(a + b).0 =~= seq![(a.take(i), sep)] + split_events(rest + b).0);
            assert(split_events(a).0 =~= seq![(a.take(i), sep)] + split_events(rest).0);
            assert(split_events(a + b).0 =~= split_events(a).0 + split_events(split_events(a).1 + b).0);
        },
        None => {
            assert(split_events(a).0 =~= Seq::<(Seq<char>, Seq<char>)>::empty());
            assert(split_events(a).0 + split_events(a + b).0 =~= split_events(a + b).0);
        },
    }
}

/// A stream fed to the buffer in two pieces yields the events, in order,
/// and keeps the rest, that it yields and keeps when fed in one piece.
pub proof fn law_push_in_pieces(buffer: Seq<char>, first: Seq<char>, second: Seq<char>)
    ensures
        split_events(buffer + first).0 + split_events(split_events(buffer + first).1 + second).0
            == split_events(buffer + (first + second)).0,
        split_events(split_events(buffer + first).1 + second).1 == split_events(
            buffer + (first + second),
        ).1,
{
    assert(buffer + (first + second) =~= (buffer + first) + second);
    lemma_split_events_concat(buffer + first, second);
}

/// Where the first event of `v` ends, and the blank line that ends it.
pub fn find_event_separator(v: &Vec<char>) -> (r: Option<(usize, Vec<char>)>)
    ensures
        match r {
            Some((i, sep)) => event_separator(v@) == Some((i as int, sep@)),
            None => event_separator(v@) is None,
        },
{
    let crlf = vec!['\r', '\n', '\r', '\n'];
    let lf = vec!['\n', '\n'];
    assert(crlf@ =~= crlf_separator());
    assert(lf@ =~= lf_separator());
    match (find_from(v, &crlf, 0), find_from(v, &lf, 0)) {
        (Some(c), Some(l)) => if c < l {
            Some((c, crlf))
        } else {
            Some((l, lf))
        },
        (Some(c), None) => Some((c, crlf)),
        (None, Some(l)) => Some((l, lf)),
        (None, None) => None,
    }
}

/// An event of the stream, repaired, followed by its blank line.
pub open spec fn event_output(ev: Seq<char>, sep: Seq<char>, o: Seq<char>) -> bool {
    exists|out: Seq<char>| event_rectified(ev, out) && o == out + sep
}

/// The text of a response stream not yet passed on: what follows the last
/// complete event.
pub struct SseRectifierBuffer {
    pub buffer: String,
}

impl Default for SseRectifierBuffer {
    fn default() -> (r: Self)
        ensures
            r.buffer@.len() == 0,
    {
        SseRectifierBuffer { buffer: String::new() }
    }
}

impl SseRectifierBuffer {
    /// Takes the next piece of the stream; gives each event it completes,
    /// repaired, with its blank line, and keeps the rest.
    pub fn push_text(&mut self, text: &str) -> (r: Vec<String>)
        ensures
            final(self).buffer@ == split_events(old(self).buffer@ + text@).1,
            r@.len() == split_events(old(self).buffer@ + text@).0.len(),
            forall|i: int|
                0 <= i < r@.len() ==> event_output(
                    split_events(old(self).buffer@ + text@).0[i].0,
                    split_events(old(self).buffer@ + text@).0[i].1,
                    #[trigger] r@[i]@,
                ),
    {
        let mut rest = chars_of(self.buffer.as_str());
        crate::text::append_str(&mut rest, text);
        let ghost all = rest@;
        let mut output: Vec<String> = Vec::new();
        let ghost mut done: Seq<(Seq<char>, Seq<char>)> = seq![];
        loop
            invariant
                done + split_events(rest@).0 == split_events(all).0,
                split_events(rest@).1 == split_events(all).1,
                output@.len() == done.len(),
                forall|i: int|
                    0 <= i < output@.len() ==> event_output(done[i].0, done[i].1, #[trigger] output@[i]@),
            ensures
                output@.len() == split_events(all).0.len(),
                forall|i: int|
                    0 <= i < output@.len() ==> event_output(
                        split_events(all).0[i].0,
                        split_events(all).0[i].1,
                        #[trigger] output@[i]@,
                    ),
                rest@ == split_events(all).1,
            decreases rest@.len(),
        {
            let ghost before = rest@;
            match find_event_separator(&rest) {
                None => {
                    assert(split_events(rest@).0 =~= Seq::<(Seq<char>, Seq<char>)>::empty());
                    assert(done =~= split_events(all).0);
                    break;
                },
                Some((index, separator)) => {
                    proof {
                        lemma_event_separator_bounds(before);
                        assert(index + separator@.len() <= before.len());
                    }
                    let event = slice_chars(&rest, 0, index);
                    assert(event@ =~= before.take(index as int));
                    let total = rest.len();
                    let next = slice_chars(&rest, index + separator.len(), total);
                    assert(next@ =~= before.skip(index + separator@.len()));
                    let event_text = string_of(&event);
                    let fixed = rectify_sse_event(event_text.as_str());
                    let mut piece = chars_of(fixed.as_str());
                    crate::text::append_chars(&mut piece, &separator);
                    let item = string_of(&piece);
                    proof {
                        assert(event_rectified(event@, fixed@));
                        assert(item@ =~= fixed@ + separator@);
                        assert(event_output(event@, separator@, item@));
                        let pre_done = done;
                        done = done.push((event@, separator@));
                        assert(done + split_events(next@).0 =~= pre_done + split_events(before).0);
                    }
                    output.push(item);
                    rest = next;
                },
            }
        }
        self.buffer = string_of(&rest);
        output
    }

    /// The text left when the stream ends, repaired as one event; none
    /// where nothing is left.
    pub fn finish(self) -> (r: Option<String>)
        ensures
            self.buffer@.len() == 0 ==> r is None,
            self.buffer@.len() > 0 ==> match r {
                Some(s) => event_rectified(self.buffer@, s@),
                None => false,
            },
    {
        if self.buffer.as_str().is_empty() {
            None
        } else {
            Some(rectify_sse_event(self.buffer.as_str()))
        }
    }
}


/// The text `String::from_utf8_lossy` reads from `b`.
pub uninterp spec fn lossy_text(b: Seq<u8>) -> Seq<char>;

/// `String::from_utf8_lossy`, as an owned string.
#[verifier::external_body]
fn utf8_lossy(b: &[u8]) -> (r: String)
    ensures
        r@ == lossy_text(b@),
{
    String::from_utf8_lossy(b).into_owned()
}

/// Repairs a whole response body; a body that is not JSON is kept.
pub fn rectify_response_bytes(bytes: Vec<u8>) -> (r: Vec<u8>)
    ensures
        match parse_json_bytes_spec(bytes@) {
            None => r@ == bytes@,
            Some(v) => exists|v2: JsonValue| response_rectified(v, v2, lossy_text(bytes@)) && r@ == json_bytes(v2),
        },
{
    match parse_json_bytes(bytes.as_slice()) {
        None => bytes,
        Some(mut value) => {
            let seed = utf8_lossy(bytes.as_slice());
            rectify_response_value(&mut value, seed.as_str());
            to_json_bytes(&value)
        },
    }
}

/// Whether a request goes to the Responses endpoint: a POST whose path ends
/// with `/responses`.
pub fn is_responses_request(method: &str, path: &str) -> (r: bool)
    ensures
        r == (method@ == "POST"@ && ends_with(path@, "/responses"@)),
{
    let p = chars_of(path);
    let suffix = chars_of("/responses");
    str_eq(method, "POST") && crate::text::chars_ends_with(&p, &suffix)
}

} // verus!
