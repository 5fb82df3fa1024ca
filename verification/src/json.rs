//! JSON values as the service reads and writes them, with the field
//! lookups and updates the response rectifier and the evidence recorder
//! make. Reading and writing the text is `serde_json`'s.
use vstd::prelude::*;

use crate::config::{all_digits, digits_value, parse_uint_exec};
use crate::text::{chars_of, str_eq, to_string};

verus! {

/// A JSON value. A number keeps the text `serde_json` writes for it; an
/// object keeps its fields as pairs, each key once.
#[derive(Debug)]
pub enum JsonValue {
    Null,
    Bool(bool),
    Number(String),
    Str(String),
    Array(Vec<JsonValue>),
    Object(Vec<(String, JsonValue)>),
}

#[verifier::external_type_specification]
#[verifier::external_body]
pub struct ExSerdeJsonValue(serde_json::Value);

/// The library's form of a `serde_json::Value`: each variant to its
/// counterpart, numbers by their text.
#[verifier::external_body]
fn from_serde(v: serde_json::Value) -> JsonValue {
    match v {
        serde_json::Value::Null => JsonValue::Null,
        serde_json::Value::Bool(b) => JsonValue::Bool(b),
        serde_json::Value::Number(n) => JsonValue::Number(n.to_string()),
        serde_json::Value::String(s) => JsonValue::Str(s),
        serde_json::Value::Array(a) => JsonValue::Array(a.into_iter().map(from_serde).collect()),
        serde_json::Value::Object(m) => JsonValue::Object(
            m.into_iter().map(|(k, v)| (k, from_serde(v))).collect(),
        ),
    }
}

/// The `serde_json::Value` of a library value: each variant to its
/// counterpart, a number from its text.
#[verifier::external_body]
fn to_serde(v: &JsonValue) -> serde_json::Value {
    match v {
        JsonValue::Null => serde_json::Value::Null,
        JsonValue::Bool(b) => serde_json::Value::Bool(*b),
        JsonValue::Number(n) => n.parse().map(serde_json::Value::Number).unwrap_or(serde_json::Value::Null),
        JsonValue::Str(s) => serde_json::Value::String(s.clone()),
        JsonValue::Array(a) => serde_json::Value::Array(a.iter().map(to_serde).collect()),
        JsonValue::Object(f) => serde_json::Value::Object(
            f.iter().map(|(k, v)| (k.clone(), to_serde(v))).collect(),
        ),
    }
}

/// What `serde_json::from_str::<Value>` reads from `s`, if `s` is JSON.
pub uninterp spec fn parse_json_spec(s: Seq<char>) -> Option<JsonValue>;

/// The compact text `serde_json::to_string` writes for `v`.
pub uninterp spec fn json_text(v: JsonValue) -> Seq<char>;

/// Reads `s` as JSON (`serde_json::from_str::<Value>`); none where it is
/// not JSON.
#[verifier::external_body]
fn serde_from_str(s: &str) -> (r: Option<JsonValue>)
    ensures
        r == parse_json_spec(s@),
{
    serde_json::from_str::<serde_json::Value>(s).ok().map(from_serde)
}

/// Writes `v` as compact JSON (`serde_json::to_string`).
#[verifier::external_body]
fn serde_to_string(v: &JsonValue) -> (r: String)
    ensures
        r@ == json_text(*v),
{
    serde_json::to_string(&to_serde(v)).unwrap_or_default()
}

/// The JSON value the text `s` holds; none where it is not JSON.
pub fn parse_json(s: &str) -> (r: Option<JsonValue>)
    ensures
        r == parse_json_spec(s@),
{
    serde_from_str(s)
}

/// `v` as compact JSON text.
pub fn to_json_string(v: &JsonValue) -> (r: String)
    ensures
        r@ == json_text(*v),
{
    serde_to_string(v)
}

// ---------------------------------------------------------------------------
// Fields of objects
// ---------------------------------------------------------------------------

/// The first index at or after `i` of a field named `key`.
pub open spec fn find_key(f: Seq<(String, JsonValue)>, key: Seq<char>, i: int) -> Option<int>
    decreases f.len() - i,
{
    if i < 0 || i >= f.len() {
        None
    } else if f[i].0@ == key {
        Some(i)
    } else {
        find_key(f, key, i + 1)
    }
}

pub proof fn lemma_find_key(f: Seq<(String, JsonValue)>, key: Seq<char>, i: int)
    requires
        0 <= i,
    ensures
        match find_key(f, key, i) {
            Some(j) => i <= j < f.len() && f[j].0@ == key && forall|m: int|
                i <= m < j ==> (#[trigger] f[m]).0@ != key,
            None => forall|m: int| i <= m < f.len() ==> (#[trigger] f[m]).0@ != key,
        },
    decreases f.len() - i,
{
    if i < f.len() && f[i].0@ != key {
        lemma_find_key(f, key, i + 1);
    }
}

/// The value of the field `key` of the fields `f`.
pub open spec fn obj_get(f: Seq<(String, JsonValue)>, key: Seq<char>) -> Option<JsonValue> {
    match find_key(f, key, 0) {
        Some(i) => Some(f[i].1),
        None => None,
    }
}

/// The value of the field `key` of `v`, where `v` is an object.
pub open spec fn get(v: JsonValue, key: Seq<char>) -> Option<JsonValue> {
    match v {
        JsonValue::Object(f) => obj_get(f@, key),
        _ => None,
    }
}

/// The text of a value that is a string.
pub open spec fn str_of(v: Option<JsonValue>) -> Option<Seq<char>> {
    match v {
        Some(JsonValue::Str(s)) => Some(s@),
        _ => None,
    }
}

/// The boolean of a value that is one.
pub open spec fn bool_of(v: Option<JsonValue>) -> Option<bool> {
    match v {
        Some(JsonValue::Bool(b)) => Some(b),
        _ => None,
    }
}

/// The number of a value that is an unsigned integer within `u64`
/// (`Value::as_u64`).
pub open spec fn u64_of(v: Option<JsonValue>) -> Option<int> {
    match v {
        Some(JsonValue::Number(t)) => if t@.len() > 0 && all_digits(t@) && digits_value(t@)
            <= u64::MAX {
            Some(digits_value(t@))
        } else {
            None
        },
        _ => None,
    }
}

/// `n` written in decimal reads back as `n`.
pub proof fn lemma_digits_of_decimal(n: nat)
    ensures
        crate::text::decimal(n).len() > 0,
        all_digits(crate::text::decimal(n)),
        digits_value(crate::text::decimal(n)) == n,
    decreases n,
{
    let d = crate::text::decimal(n);
    let c = crate::text::digit_char((n % 10) as int);
    assert(c as int == (n % 10) + 48);
    if n < 10 {
        assert(d =~= seq![c]);
        assert(d.drop_last() =~= Seq::<char>::empty());
        assert(d.last() == c);
        assert(digits_value(d) == digits_value(d.drop_last()) * 10 + (d.last() as int - '0' as int));
    } else {
        lemma_digits_of_decimal(n / 10);
        assert(d.drop_last() =~= crate::text::decimal(n / 10));
        assert(d.last() == c);
        assert(n == (n / 10) * 10 + n % 10);
        assert(digits_value(d) == digits_value(d.drop_last()) * 10 + (d.last() as int - '0' as int));
        assert forall|i: int| 0 <= i < d.len() implies crate::config::is_digit(#[trigger] d[i]) by {
            if i < d.len() - 1 {
                assert(d[i] == crate::text::decimal(n / 10)[i]);
            }
        }
    }
}

/// Whether a field `key` holds a string that is not empty.
pub open spec fn has_text(f: Seq<(String, JsonValue)>, key: Seq<char>) -> bool {
    match str_of(obj_get(f, key)) {
        Some(s) => s.len() > 0,
        None => false,
    }
}

/// The index of the field `key` of `f`.
pub fn find_field(f: &Vec<(String, JsonValue)>, key: &str) -> (r: Option<usize>)
    ensures
        match r {
            Some(i) => find_key(f@, key@, 0) == Some(i as int) && i < f@.len(),
            None => find_key(f@, key@, 0) is None,
        },
{
    let mut i: usize = 0;
    while i < f.len()
        invariant
            i <= f.len(),
            find_key(f@, key@, 0) == find_key(f@, key@, i as int),
        decreases f.len() - i,
    {
        if str_eq(f[i].0.as_str(), key) {
            return Some(i);
        }
        i = i + 1;
    }
    None
}

/// The field `key` of `v`, where `v` is an object that has one.
pub fn get_field<'a>(v: &'a JsonValue, key: &str) -> (r: Option<&'a JsonValue>)
    ensures
        match r {
            Some(x) => get(*v, key@) == Some(*x),
            None => get(*v, key@) is None,
        },
{
    match v {
        JsonValue::Object(f) => match find_field(f, key) {
            Some(i) => Some(&f[i].1),
            None => None,
        },
        _ => None,
    }
}

/// The text of the field `key` of `v`, where it is a string.
pub fn field_str(v: &JsonValue, key: &str) -> (r: Option<String>)
    ensures
        match r {
            Some(s) => str_of(get(*v, key@)) == Some(s@),
            None => str_of(get(*v, key@)) is None,
        },
{
    match get_field(v, key) {
        Some(JsonValue::Str(s)) => Some(s.clone()),
        _ => None,
    }
}

/// The boolean of the field `key` of `v`, where it is one.
pub fn field_bool(v: &JsonValue, key: &str) -> (r: Option<bool>)
    ensures
        r == bool_of(get(*v, key@)),
{
    match get_field(v, key) {
        Some(JsonValue::Bool(b)) => Some(*b),
        _ => None,
    }
}

/// The unsigned integer of the field `key` of `v`, where it is one.
pub fn field_u64(v: &JsonValue, key: &str) -> (r: Option<u64>)
    ensures
        match r {
            Some(n) => u64_of(get(*v, key@)) == Some(n as int),
            None => u64_of(get(*v, key@)) is None,
        },
{
    match get_field(v, key) {
        Some(JsonValue::Number(t)) => {
            let c = chars_of(t.as_str());
            if c.len() > 0 && c[0] == '+' {
                proof {
                    assert(!crate::config::is_digit(t@[0]));
                }
                return None;
            }
            let r = parse_uint_exec(&c, u64::MAX);
            proof {
                if c@.len() > 0 {
                    assert(c@[0] != '+');
                }
            }
            r
        },
        _ => None,
    }
}

/// Whether `v` is an object.
pub open spec fn is_object(v: JsonValue) -> bool {
    v is Object
}

/// Gives the field `key` of the fields `f` the value `value`, in place of
/// the one it had; a field it did not have comes last.
pub fn set_field(f: &mut Vec<(String, JsonValue)>, key: &str, value: JsonValue)
    ensures
        obj_get(final(f)@, key@) == Some(value),
        forall|k: Seq<char>| k != key@ ==> obj_get(final(f)@, k) == obj_get(old(f)@, k),
{
    let ghost pre = f@;
    proof {
        lemma_find_key(pre, key@, 0);
    }
    match find_field(f, key) {
        Some(i) => {
            let name = f[i].0.clone();
            let ghost v0 = value;
            f.set(i, (name, value));
            proof {
                assert forall|m: int| 0 <= m < f@.len() implies (#[trigger] f@[m]).0@ == pre[m].0@ by {}
                lemma_find_key(f@, key@, 0);
                assert(f@[i as int].0@ == key@);
                assert(f@[i as int].1 == v0);
                match find_key(f@, key@, 0) {
                    Some(b) => {
                        assert(pre[b].0@ == key@);
                    },
                    None => {},
                }
                assert forall|k: Seq<char>| k != key@ implies obj_get(f@, k) == obj_get(pre, k) by {
                    lemma_find_key(f@, k, 0);
                    lemma_find_key(pre, k, 0);
                    match find_key(pre, k, 0) {
                        Some(a) => {
                            assert(f@[a].0@ == k);
                            match find_key(f@, k, 0) {
                                Some(b) => {
                                    assert(pre[b].0@ == k);
                                },
                                None => {},
                            }
                        },
                        None => {
                            match find_key(f@, k, 0) {
                                Some(b) => {
                                    assert(pre[b].0@ == k);
                                },
                                None => {},
                            }
                        },
                    }
                }
            }
        },
        None => {
            f.push((to_string(key), value));
            proof {
                lemma_find_key(f@, key@, 0);
                assert(f@[pre.len() as int].0@ == key@);
                match find_key(f@, key@, 0) {
                    Some(b) => {
                        if b < pre.len() {
                            assert(f@[b] == pre[b]);
                        }
                    },
                    None => {},
                }
                assert forall|k: Seq<char>| k != key@ implies obj_get(f@, k) == obj_get(pre, k) by {
                    lemma_find_key(f@, k, 0);
                    lemma_find_key(pre, k, 0);
                    match find_key(pre, k, 0) {
                        Some(a) => {
                            assert(f@[a] == pre[a]);
                            match find_key(f@, k, 0) {
                                Some(b) => {
                                    if b < pre.len() {
                                        assert(f@[b] == pre[b]);
                                    }
                                },
                                None => {},
                            }
                        },
                        None => {
                            match find_key(f@, k, 0) {
                                Some(b) => {
                                    if b < pre.len() {
                                        assert(f@[b] == pre[b]);
                                    }
                                },
                                None => {},
                            }
                        },
                    }
                }
            }
        },
    }
}


/// The value of the `i`-th field of `f`, to be changed in place.
pub fn field_slot<'a>(f: &'a mut Vec<(String, JsonValue)>, i: usize) -> (r: &'a mut JsonValue)
    requires
        i < old(f)@.len(),
    ensures
        *r == old(f)@[i as int].1,
        final(f)@ == old(f)@.update(i as int, (old(f)@[i as int].0, *final(r))),
{
    &mut f[i].1
}


proof fn lemma_find_key_same_keys(f: Seq<(String, JsonValue)>, g: Seq<(String, JsonValue)>, k: Seq<char>, j: int)
    requires
        0 <= j,
        f.len() == g.len(),
        forall|m: int| 0 <= m < f.len() ==> (#[trigger] f[m]).0 == g[m].0,
    ensures
        find_key(f, k, j) == find_key(g, k, j),
    decreases f.len() - j,
{
    if j < f.len() {
        assert(f[j].0 == g[j].0);
        lemma_find_key_same_keys(f, g, k, j + 1);
    }
}

/// Changing the value of one field leaves where every key is found.
pub proof fn lemma_update_value(f: Seq<(String, JsonValue)>, i: int, v: JsonValue)
    requires
        0 <= i < f.len(),
    ensures
        forall|k: Seq<char>| #[trigger]
            find_key(f.update(i, (f[i].0, v)), k, 0) == find_key(f, k, 0),
{
    let g = f.update(i, (f[i].0, v));
    assert forall|k: Seq<char>| #[trigger] find_key(g, k, 0) == find_key(f, k, 0) by {
        assert forall|m: int| 0 <= m < g.len() implies (#[trigger] g[m]).0 == f[m].0 by {}
        lemma_find_key_same_keys(g, f, k, 0);
    }
}

/// The text of the field `key` of the fields `f`, where it is a string.
pub fn obj_field_str(f: &Vec<(String, JsonValue)>, key: &str) -> (r: Option<String>)
    ensures
        match r {
            Some(s) => str_of(obj_get(f@, key@)) == Some(s@),
            None => str_of(obj_get(f@, key@)) is None,
        },
{
    match find_field(f, key) {
        Some(i) => match &f[i].1 {
            JsonValue::Str(s) => Some(s.clone()),
            _ => None,
        },
        None => None,
    }
}


/// What `serde_json::from_slice::<Value>` reads from `b`, if `b` is JSON.
pub uninterp spec fn parse_json_bytes_spec(b: Seq<u8>) -> Option<JsonValue>;

/// The bytes `serde_json::to_vec` writes for `v`.
pub uninterp spec fn json_bytes(v: JsonValue) -> Seq<u8>;

/// Reads `b` as JSON (`serde_json::from_slice::<Value>`); none where it is
/// not JSON.
#[verifier::external_body]
pub(crate) fn parse_json_bytes(b: &[u8]) -> (r: Option<JsonValue>)
    ensures
        r == parse_json_bytes_spec(b@),
{
    serde_json::from_slice::<serde_json::Value>(b).ok().map(from_serde)
}

/// Writes `v` as compact JSON bytes (`serde_json::to_vec`).
#[verifier::external_body]
pub(crate) fn to_json_bytes(v: &JsonValue) -> (r: Vec<u8>)
    ensures
        r@ == json_bytes(*v),
{
    serde_json::to_vec(&to_serde(v)).unwrap_or_default()
}

} // verus!
