//! Retrieval parameters and the filter expressions of the vector store.
use vstd::prelude::*;

use crate::json::{field_u64, get, get_field, str_of, u64_of, JsonValue};
use crate::text::{chars_of, replace, replace_chars, string_of, to_string, u64_to_string, views};

verus! {

/// Filter for ordinary knowledge-base documents.
pub const DOCUMENT_FILTER_EXPR: &'static str = "metadata[\"doc_type\"] == \"document\"";

/// Filter for archived incident cases.
pub const INCIDENT_CASE_FILTER_EXPR: &'static str = "metadata[\"doc_type\"] == \"incident_case\"";

/// Start of the filter for the private memories of a session.
pub const CHAT_MEMORY_FILTER_PREFIX: &'static str = "metadata[\"doc_type\"] == \"chat_memory\" && metadata[\"session_id\"] == \"";

/// A string value as it must stand between double quotes in a filter
/// expression: backslashes and double quotes escaped.
pub open spec fn escape_expr_value_spec(value: Seq<char>) -> Seq<char> {
    replace(replace(value, seq!['\\'], seq!['\\', '\\']), seq!['"'], seq!['\\', '"'])
}

pub fn escape_expr_value(value: &str) -> (r: String)
    ensures
        r@ == escape_expr_value_spec(value@),
{
    let v = chars_of(value);
    let backslash = vec!['\\'];
    let two_backslashes = vec!['\\', '\\'];
    let quote = vec!['"'];
    let escaped_quote = vec!['\\', '"'];
    assert(backslash@ =~= seq!['\\']);
    assert(two_backslashes@ =~= seq!['\\', '\\']);
    assert(quote@ =~= seq!['"']);
    assert(escaped_quote@ =~= seq!['\\', '"']);
    let a = replace_chars(&v, &backslash, &two_backslashes);
    let b = replace_chars(&a, &quote, &escaped_quote);
    string_of(&b)
}

/// The filter that selects the private memories of one session.
pub open spec fn chat_memory_filter_spec(session_id: Seq<char>) -> Seq<char> {
    CHAT_MEMORY_FILTER_PREFIX@ + escape_expr_value_spec(session_id) + "\""@
}

pub fn chat_memory_filter_expr(session_id: &str) -> (r: String)
    ensures
        r@ == chat_memory_filter_spec(session_id@),
{
    let mut r = to_string(CHAT_MEMORY_FILTER_PREFIX);
    let escaped = escape_expr_value(session_id);
    r.append(escaped.as_str());
    r.append("\"");
    r
}

/// The filter that selects the archived case of one incident.
pub open spec fn incident_case_filter_spec(incident_id: Seq<char>) -> Seq<char> {
    "metadata[\"doc_type\"] == \"incident_case\" && metadata[\"incident_id\"] == \""@
        + escape_expr_value_spec(incident_id) + "\""@
}

pub fn incident_case_filter_expr(incident_id: &str) -> (r: String)
    ensures
        r@ == incident_case_filter_spec(incident_id@),
{
    let mut r = to_string("metadata[\"doc_type\"] == \"incident_case\" && metadata[\"incident_id\"] == \"");
    let escaped = escape_expr_value(incident_id);
    r.append(escaped.as_str());
    r.append("\"");
    r
}

/// How many results to keep and how many candidates to fetch for a search.
pub struct SearchPlan {
    pub requested_top_k: usize,
    pub search_k: usize,
}

/// At least one result; at least `candidate_k` candidates for the reranker.
pub fn search_plan(top_k: usize, candidate_k: usize) -> (r: SearchPlan)
    ensures
        r.requested_top_k == if top_k >= 1 {
            top_k
        } else {
            1
        },
        r.search_k == if r.requested_top_k >= candidate_k {
            r.requested_top_k
        } else {
            candidate_k
        },
{
    let requested_top_k = if top_k >= 1 {
        top_k
    } else {
        1
    };
    let search_k = if requested_top_k >= candidate_k {
        requested_top_k
    } else {
        candidate_k
    };
    SearchPlan { requested_top_k, search_k }
}

/// Fewest and most results a knowledge search may ask for.
pub const MIN_TOP_K: usize = 1;

pub const MAX_TOP_K: usize = 20;

/// The number of results a knowledge search returns: 5 when not given,
/// held between `MIN_TOP_K` and `MAX_TOP_K`.
pub fn knowledge_top_k(requested: Option<usize>) -> (r: usize)
    ensures
        r == match requested {
            None => 5usize,
            Some(k) => if k < MIN_TOP_K {
                MIN_TOP_K
            } else if k > MAX_TOP_K {
                MAX_TOP_K
            } else {
                k
            },
        },
{
    let k = match requested {
        Some(k) => k,
        None => 5,
    };
    if k < MIN_TOP_K {
        MIN_TOP_K
    } else if k > MAX_TOP_K {
        MAX_TOP_K
    } else {
        k
    }
}

// ---------------------------------------------------------------------------
// Character hashing for sparse vectors
// ---------------------------------------------------------------------------

/// The UTF-16 code units of a character.
pub open spec fn utf16_units(c: char) -> Seq<u16> {
    let u = c as u32;
    if u < 0x10000 {
        seq![u as u16]
    } else {
        let v = (u - 0x10000) as u32;
        seq![(0xD800 + v / 0x400) as u16, (0xDC00 + v % 0x400) as u16]
    }
}

/// The string hash code `h * 31 + unit` over the UTF-16 units, with 32-bit
/// wrap-around.
pub open spec fn hash_code31(units: Seq<u16>) -> int
    decreases units.len(),
{
    if units.len() == 0 {
        0
    } else {
        wrap_i32(hash_code31(units.drop_last()) * 31 + units.last())
    }
}

/// `x` wrapped into the range of `i32`.
pub open spec fn wrap_i32(x: int) -> int {
    let m = x % 0x1_0000_0000;
    if m >= 0x8000_0000 {
        m - 0x1_0000_0000
    } else {
        m
    }
}

/// The hash code of the one-character string `c`; it is never negative.
pub fn char_hash_code(c: char) -> (r: i32)
    ensures
        r == hash_code31(utf16_units(c)),
        r >= 0,
{
    let u = c as u32;
    if u < 0x10000 {
        proof {
            let units = utf16_units(c);
            assert(units.drop_last() =~= Seq::<u16>::empty());
            assert(units.last() == u as u16);
            assert((u as u16) as int == u as int);
            assert(hash_code31(units.drop_last()) == 0);
            assert(wrap_i32(0 * 31 + u) == u);
            assert(hash_code31(units) == wrap_i32(hash_code31(units.drop_last()) * 31 + units.last()));
        }
        u as i32
    } else {
        let v = u - 0x10000;
        let hi = 0xD800 + v / 0x400;
        let lo = 0xDC00 + v % 0x400;
        proof {
            let units = utf16_units(c);
            assert(units.drop_last() =~= seq![hi as u16]);
            assert(units.drop_last().drop_last() =~= Seq::<u16>::empty());
            assert(hi < 0xDC00);
            assert(units.last() == lo as u16);
            assert((lo as u16) as int == lo as int);
            assert((hi as u16) as int == hi as int);
            assert(units.drop_last().last() == hi as u16);
            assert(hash_code31(units.drop_last().drop_last()) == 0);
            assert(wrap_i32(0 * 31 + hi) == hi);
            assert(hash_code31(units.drop_last()) == wrap_i32(
                hash_code31(units.drop_last().drop_last()) * 31 + units.drop_last().last(),
            ));
            assert(hash_code31(units.drop_last()) == hi);
            assert(wrap_i32(hi * 31 + lo) == hi * 31 + lo);
            assert(hash_code31(units) == wrap_i32(hash_code31(units.drop_last()) * 31 + units.last()));
        }
        (hi * 31 + lo) as i32
    }
}

/// The sparse-vector term of a character: its hash modulo one million.
pub open spec fn sparse_term(c: char) -> int {
    hash_code31(utf16_units(c)) % 1_000_000
}

// ---------------------------------------------------------------------------
// Reranking
// ---------------------------------------------------------------------------

/// The request that asks the reranker to order `documents` for `query`,
/// keeping `top_k`.
pub open spec fn is_rerank_request(
    v: JsonValue,
    model: Seq<char>,
    query: Seq<char>,
    documents: Seq<Seq<char>>,
    top_k: nat,
) -> bool {
    &&& str_of(get(v, "model"@)) == Some(model)
    &&& get(v, "input"@) matches Some(input) && str_of(get(input, "query"@)) == Some(query) && (get(
        input,
        "documents"@,
    ) matches Some(JsonValue::Array(d)) && d@.len() == documents.len() && forall|i: int|
        0 <= i < d@.len() ==> str_of(Some(#[trigger] d@[i])) == Some(documents[i]))
    &&& get(v, "parameters"@) matches Some(p) && u64_of(get(p, "top_n"@)) == Some(top_k as int)
        && get(p, "return_documents"@) == Some(JsonValue::Bool(false))
}

proof fn lemma_rerank_keys()
    ensures
        "model"@ != "input"@,
        "model"@ != "parameters"@,
        "input"@ != "parameters"@,
        "query"@ != "documents"@,
        "top_n"@ != "return_documents"@,
{
    reveal_strlit("model");
    reveal_strlit("input");
    reveal_strlit("parameters");
    reveal_strlit("query");
    reveal_strlit("documents");
    reveal_strlit("top_n");
    reveal_strlit("return_documents");
    assert("model"@[0] != "input"@[0]);
    assert("model"@.len() != "parameters"@.len());
    assert("input"@.len() != "parameters"@.len());
    assert("query"@.len() != "documents"@.len());
    assert("top_n"@.len() != "return_documents"@.len());
}

/// The request that asks the reranker to order `documents` for `query`
/// (see `is_rerank_request`).
pub fn rerank_request(model: &str, query: &str, documents: &Vec<String>, top_k: usize) -> (r: JsonValue)
    ensures
        is_rerank_request(r, model@, query@, views(documents@), top_k as nat),
{
    proof {
        lemma_rerank_keys();
        reveal_with_fuel(crate::json::find_key, 4);
    }
    let mut d: Vec<JsonValue> = Vec::new();
    let mut i: usize = 0;
    while i < documents.len()
        invariant
            i <= documents@.len(),
            d@.len() == i,
            forall|k: int| 0 <= k < i ==> str_of(Some(#[trigger] d@[k])) == Some(documents@[k]@),
        decreases documents.len() - i,
    {
        d.push(JsonValue::Str(documents[i].clone()));
        i = i + 1;
    }
    let mut input: Vec<(String, JsonValue)> = Vec::new();
    input.push((to_string("query"), JsonValue::Str(to_string(query))));
    input.push((to_string("documents"), JsonValue::Array(d)));
    let mut params: Vec<(String, JsonValue)> = Vec::new();
    params.push((to_string("top_n"), JsonValue::Number(u64_to_string(top_k as u64))));
    params.push((to_string("return_documents"), JsonValue::Bool(false)));
    let mut f: Vec<(String, JsonValue)> = Vec::new();
    f.push((to_string("model"), JsonValue::Str(to_string(model))));
    f.push((to_string("input"), JsonValue::Object(input)));
    f.push((to_string("parameters"), JsonValue::Object(params)));
    let v = JsonValue::Object(f);
    proof {
        crate::json::lemma_digits_of_decimal(top_k as nat);
    }
    v
}

/// The results a rerank answer lists (`output.results`), where it lists
/// them.
pub open spec fn rerank_results(payload: JsonValue) -> Option<Seq<JsonValue>> {
    match get(payload, "output"@) {
        Some(o) => match get(o, "results"@) {
            Some(JsonValue::Array(a)) => Some(a@),
            _ => None,
        },
        None => None,
    }
}

/// The candidates the results pick, in order: each result's `index` where
/// it is an unsigned integer below `n`; the others are passed over.
pub open spec fn picks_spec(items: Seq<JsonValue>, n: nat) -> Seq<int>
    decreases items.len(),
{
    if items.len() == 0 {
        seq![]
    } else {
        let p = picks_spec(items.drop_last(), n);
        match u64_of(get(items.last(), "index"@)) {
            Some(i) => if i < n {
                p.push(i)
            } else {
                p
            },
            None => p,
        }
    }
}

/// The candidates (of `n`) a rerank answer picks, in its order (see
/// `picks_spec`); none where the answer lists no results.
pub fn rerank_picks(payload: &JsonValue, n: usize) -> (r: Option<Vec<usize>>)
    ensures
        match rerank_results(*payload) {
            Some(items) => r matches Some(p) && p@.map_values(|i: usize| i as int) == picks_spec(
                items,
                n as nat,
            ),
            None => r is None,
        },
{
    let items = match get_field(payload, "output") {
        Some(o) => match get_field(o, "results") {
            Some(JsonValue::Array(a)) => a,
            _ => return None,
        },
        None => return None,
    };
    let mut out: Vec<usize> = Vec::new();
    let mut i: usize = 0;
    while i < items.len()
        invariant
            i <= items@.len(),
            out@.map_values(|x: usize| x as int) == picks_spec(items@.take(i as int), n as nat),
        decreases items.len() - i,
    {
        assert(items@.take(i + 1).drop_last() =~= items@.take(i as int));
        let ghost before = out@;
        match field_u64(&items[i], "index") {
            Some(k) => if k < n as u64 {
                out.push(k as usize);
                assert(out@.map_values(|x: usize| x as int) =~= before.map_values(|x: usize| x as int).push(
                    k as int,
                ));
            },
            None => {},
        }
        assert(out@.map_values(|x: usize| x as int) == picks_spec(items@.take(i + 1), n as nat));
        i = i + 1;
    }
    assert(items@.take(items.len() as int) =~= items@);
    Some(out)
}

/// How many candidates are kept when the reranker cannot be used: the
/// first `top_k`, or all where there are fewer.
pub fn fallback_count(candidates: usize, top_k: usize) -> (r: usize)
    ensures
        r == (if candidates < top_k {
            candidates
        } else {
            top_k
        }),
{
    if candidates < top_k {
        candidates
    } else {
        top_k
    }
}

/// The first `top_k` candidates, copied, in their order: what is kept
/// where the reranker cannot be used.
pub fn defensive_copy_top_k<T: Clone>(candidates: &[T], top_k: usize) -> (r: Vec<T>)
    ensures
        r@.len() == (if candidates@.len() < top_k {
            candidates@.len() as int
        } else {
            top_k as int
        }),
        forall|i: int| 0 <= i < r@.len() ==> cloned::<T>(candidates@[i], #[trigger] r@[i]),
{
    let n = fallback_count(candidates.len(), top_k);
    let mut r: Vec<T> = Vec::new();
    let mut i: usize = 0;
    while i < n
        invariant
            n <= candidates@.len(),
            i <= n,
            r@.len() == i,
            forall|j: int| 0 <= j < i ==> cloned::<T>(candidates@[j], #[trigger] r@[j]),
        decreases n - i,
    {
        r.push(candidates[i].clone());
        i = i + 1;
    }
    r
}

/// `0, 1, ..., n - 1`.
pub open spec fn first_indices(n: int) -> Seq<int> {
    Seq::new(n as nat, |i: int| i)
}

/// The candidates (of `candidates`) a rerank keeps, in order: none where
/// there are none; the reranker's picks where a key is configured, a reply
/// came (`reply`: whether its status was a success, and its body read as
/// JSON where it was JSON), the status was a success and the reply picks at
/// least one candidate; else the first `top_k`.
pub open spec fn rerank_outcome_spec(
    candidates: int,
    top_k: int,
    key_present: bool,
    reply: Option<(bool, Option<JsonValue>)>,
) -> Seq<int> {
    let fallback = first_indices(if candidates < top_k { candidates } else { top_k });
    if candidates == 0 {
        seq![]
    } else if !key_present {
        fallback
    } else {
        match reply {
            Some((true, Some(payload))) => match rerank_results(payload) {
                Some(items) => if picks_spec(items, candidates as nat).len() > 0 {
                    picks_spec(items, candidates as nat)
                } else {
                    fallback
                },
                None => fallback,
            },
            _ => fallback,
        }
    }
}

/// The candidates a rerank keeps (see `rerank_outcome_spec`).
pub fn rerank_outcome(
    candidates: usize,
    top_k: usize,
    key_present: bool,
    reply: Option<(bool, Option<JsonValue>)>,
) -> (r: Vec<usize>)
    ensures
        r@.map_values(|i: usize| i as int) == rerank_outcome_spec(
            candidates as int,
            top_k as int,
            key_present,
            reply,
        ),
{
    let n = fallback_count(candidates, top_k);
    let mut fallback: Vec<usize> = Vec::new();
    let mut i: usize = 0;
    while i < n
        invariant
            i <= n,
            fallback@.len() == i,
            forall|j: int| 0 <= j < i ==> #[trigger] fallback@[j] as int == j,
        decreases n - i,
    {
        fallback.push(i);
        i = i + 1;
    }
    assert(fallback@.map_values(|x: usize| x as int) =~= first_indices(n as int));
    if candidates == 0 {
        let empty: Vec<usize> = Vec::new();
        assert(empty@.map_values(|x: usize| x as int) =~= Seq::<int>::empty());
        return empty;
    }
    if !key_present {
        return fallback;
    }
    match reply {
        Some((true, Some(payload))) => match rerank_picks(&payload, candidates) {
            Some(picks) => if picks.len() > 0 {
                picks
            } else {
                fallback
            },
            None => fallback,
        },
        _ => fallback,
    }
}

pub const EMBEDDINGS_EMPTY: &'static str = "embedding 响应 embeddings 为空";

pub const EMBEDDINGS_COUNT_MISMATCH: &'static str = "批量 DashScope API 返回向量数量与输入数量不一致";

pub const EMBEDDING_INVALID_INDEX: &'static str = "批量 DashScope API 返回无效 textIndex";

pub const EMBEDDING_DUPLICATE_INDEX: &'static str = "批量 DashScope API 返回重复 textIndex";

pub const EMBEDDING_MISSING_VECTOR: &'static str = "embedding 响应缺少向量";

/// The input position an embedding of a batch reply belongs to: its
/// `text_index` where it has one, else its own position.
pub open spec fn slot_of(item: (Option<u64>, bool), k: int) -> int {
    match item.0 {
        Some(i) => i as int,
        None => k,
    }
}

/// The input positions of the first `n` embeddings of a batch reply of
/// `batch` inputs, in order, or the first error met: a position past the
/// batch, one already taken, or an embedding without its vector. Each item
/// is its `text_index`, if any, and whether it holds a vector.
pub open spec fn slots_prefix(items: Seq<(Option<u64>, bool)>, batch: nat, n: int) -> Result<Seq<int>, Seq<char>>
    decreases n,
{
    if n <= 0 {
        Ok(seq![])
    } else {
        match slots_prefix(items, batch, n - 1) {
            Err(e) => Err(e),
            Ok(s) => {
                let slot = slot_of(items[n - 1], n - 1);
                if slot >= batch {
                    Err(EMBEDDING_INVALID_INDEX@)
                } else if s.contains(slot) {
                    Err(EMBEDDING_DUPLICATE_INDEX@)
                } else if !items[n - 1].1 {
                    Err(EMBEDDING_MISSING_VECTOR@)
                } else {
                    Ok(s.push(slot))
                }
            },
        }
    }
}

/// Once an error is met, it is the answer however many embeddings follow.
proof fn lemma_slots_error_stays(items: Seq<(Option<u64>, bool)>, batch: nat, n: int, m: int)
    requires
        0 <= n <= m,
        slots_prefix(items, batch, n) is Err,
    ensures
        slots_prefix(items, batch, m) == slots_prefix(items, batch, n),
    decreases m - n,
{
    if m > n {
        lemma_slots_error_stays(items, batch, n, m - 1);
    }
}

/// Where each embedding of a batch reply goes (see `slots_prefix`): none
/// where the reply has no embedding or not one per input.
pub open spec fn embedding_slots_spec(items: Seq<(Option<u64>, bool)>, batch: nat) -> Result<Seq<int>, Seq<char>> {
    if items.len() == 0 {
        Err(EMBEDDINGS_EMPTY@)
    } else if items.len() != batch {
        Err(EMBEDDINGS_COUNT_MISMATCH@)
    } else {
        slots_prefix(items, batch, items.len() as int)
    }
}

/// The input position of each embedding of a batch reply (see
/// `embedding_slots_spec`).
pub fn embedding_slots(items: &Vec<(Option<u64>, bool)>, batch: usize) -> (r: Result<Vec<usize>, String>)
    ensures
        match embedding_slots_spec(items@, batch as nat) {
            Ok(s) => r matches Ok(v) && v@.map_values(|x: usize| x as int) == s,
            Err(e) => r matches Err(m) && m@ == e,
        },
{
    if items.len() == 0 {
        return Err(to_string(EMBEDDINGS_EMPTY));
    }
    if items.len() != batch {
        return Err(to_string(EMBEDDINGS_COUNT_MISMATCH));
    }
    let mut used: Vec<bool> = Vec::new();
    let mut j: usize = 0;
    while j < batch
        invariant
            j <= batch,
            used@.len() == j,
            forall|m: int| 0 <= m < j ==> !used@[m],
        decreases batch - j,
    {
        used.push(false);
        j = j + 1;
    }
    let mut slots: Vec<usize> = Vec::new();
    assert(slots@.map_values(|x: usize| x as int) =~= Seq::<int>::empty());
    let mut k: usize = 0;
    while k < items.len()
        invariant
            k <= items@.len(),
            items@.len() == batch,
            used@.len() == batch,
            slots_prefix(items@, batch as nat, k as int) == Ok::<Seq<int>, Seq<char>>(
                slots@.map_values(|x: usize| x as int),
            ),
            forall|m: int|
                0 <= m < batch ==> (used@[m] <==> slots@.map_values(|x: usize| x as int).contains(m)),
        decreases items@.len() - k,
    {
        let slot: u64 = match items[k].0 {
            Some(i) => i,
            None => k as u64,
        };
        let ghost prev = slots@.map_values(|x: usize| x as int);
        assert(slot as int == slot_of(items@[k as int], k as int));
        if slot >= batch as u64 {
            proof {
                lemma_slots_error_stays(items@, batch as nat, k + 1, items@.len() as int);
            }
            return Err(to_string(EMBEDDING_INVALID_INDEX));
        }
        let s = slot as usize;
        assert(used@[s as int] <==> prev.contains(s as int));
        if used[s] {
            proof {
                lemma_slots_error_stays(items@, batch as nat, k + 1, items@.len() as int);
            }
            return Err(to_string(EMBEDDING_DUPLICATE_INDEX));
        }
        if !items[k].1 {
            proof {
                lemma_slots_error_stays(items@, batch as nat, k + 1, items@.len() as int);
            }
            return Err(to_string(EMBEDDING_MISSING_VECTOR));
        }
        slots.push(s);
        used.set(s, true);
        proof {
            assert(slots@.map_values(|x: usize| x as int) =~= prev.push(s as int));
            assert forall|m: int| 0 <= m < batch implies (used@[m] <==> slots@.map_values(
                |x: usize| x as int,
            ).contains(m)) by {
                if m == s as int {
                    assert(slots@.map_values(|x: usize| x as int)[prev.len() as int] == m);
                } else {
                    if prev.push(s as int).contains(m) {
                        let w = choose|w: int| 0 <= w < prev.push(s as int).len() && prev.push(s as int)[w] == m;
                        assert(w < prev.len());
                        assert(prev.contains(m));
                    }
                    if prev.contains(m) {
                        let w = choose|w: int| 0 <= w < prev.len() && prev[w] == m;
                        assert(prev.push(s as int)[w] == m);
                    }
                }
            }
        }
        k = k + 1;
    }
    Ok(slots)
}

} // verus!
