//! Service configuration: what each environment variable means, its
//! default, and which values are refused.
use vstd::prelude::*;

use crate::text::{
    ascii_lowercase, char_views, chars_of, concat, find_from, find_idx, is_blank, is_blank_str,
    lemma_find_idx_bounds, lemma_find_idx_shift, slice_chars, str_eq, string_of,
    to_ascii_lowercase, to_string, trim, trim_chars, trim_str, views,
};

verus! {

/// A configuration value that cannot be used, and why.
#[derive(Debug)]
pub enum ConfigError {
    InvalidValue(String),
}

impl ConfigError {
    /// The message of the error.
    pub fn message(&self) -> (r: &str)
        ensures
            match self {
                ConfigError::InvalidValue(m) => r@ == m@,
            },
    {
        match self {
            ConfigError::InvalidValue(m) => m.as_str(),
        }
    }
}

/// What the environment holds for one variable.
pub enum EnvValue {
    NotPresent,
    NotUnicode,
    Present(String),
}

// ---------------------------------------------------------------------------
// Numbers and addresses
// ---------------------------------------------------------------------------

pub open spec fn is_digit(c: char) -> bool {
    '0' <= c <= '9'
}

pub open spec fn all_digits(s: Seq<char>) -> bool {
    forall|i: int| 0 <= i < s.len() ==> is_digit(#[trigger] s[i])
}

/// The value of a string of decimal digits.
pub open spec fn digits_value(s: Seq<char>) -> int
    decreases s.len(),
{
    if s.len() == 0 {
        0
    } else {
        digits_value(s.drop_last()) * 10 + (s.last() as int - '0' as int)
    }
}

/// An unsigned integer no larger than `max` as `str::parse` reads it: an
/// optional `+`, then one or more decimal digits.
pub open spec fn parse_uint(s: Seq<char>, max: int) -> Option<int> {
    let d = if s.len() > 0 && s[0] == '+' {
        s.drop_first()
    } else {
        s
    };
    if d.len() > 0 && all_digits(d) && digits_value(d) <= max {
        Some(digits_value(d))
    } else {
        None
    }
}

proof fn lemma_digits_value_nonneg(s: Seq<char>)
    requires
        all_digits(s),
    ensures
        digits_value(s) >= 0,
    decreases s.len(),
{
    if s.len() > 0 {
        assert(all_digits(s.drop_last())) by {
            assert forall|i: int| 0 <= i < s.drop_last().len() implies is_digit(
                #[trigger] s.drop_last()[i],
            ) by {
                assert(s.drop_last()[i] == s[i]);
            }
        }
        lemma_digits_value_nonneg(s.drop_last());
    }
}

proof fn lemma_digits_value_grows(s: Seq<char>, k: int)
    requires
        all_digits(s),
        0 <= k <= s.len(),
    ensures
        digits_value(s.take(k)) <= digits_value(s),
    decreases s.len() - k,
{
    if k < s.len() {
        assert(all_digits(s.drop_last())) by {
            assert forall|i: int| 0 <= i < s.drop_last().len() implies is_digit(
                #[trigger] s.drop_last()[i],
            ) by {
                assert(s.drop_last()[i] == s[i]);
            }
        }
        lemma_digits_value_grows(s.drop_last(), k);
        assert(s.drop_last().take(k) =~= s.take(k));
        lemma_digits_value_nonneg(s.drop_last());
    } else {
        assert(s.take(k) =~= s);
    }
}

/// Reads an unsigned decimal no larger than `max`.
pub fn parse_uint_exec(s: &Vec<char>, max: u64) -> (r: Option<u64>)
    ensures
        match r {
            Some(v) => parse_uint(s@, max as int) == Some(v as int),
            None => parse_uint(s@, max as int) is None,
        },
{
    let start: usize = if s.len() > 0 && s[0] == '+' {
        1
    } else {
        0
    };
    let ghost d = if s@.len() > 0 && s@[0] == '+' {
        s@.drop_first()
    } else {
        s@
    };
    assert(d =~= s@.skip(start as int));
    if start >= s.len() {
        return None;
    }
    let mut value: u64 = 0;
    let mut i = start;
    while i < s.len()
        invariant
            start <= i <= s.len(),
            d == s@.skip(start as int),
            d == (if s@.len() > 0 && s@[0] == '+' {
                s@.drop_first()
            } else {
                s@
            }),
            all_digits(d.take(i - start)),
            value == digits_value(d.take(i - start)),
            value <= max,
        decreases s.len() - i,
    {
        let c = s[i];
        assert(d[i - start] == c);
        if c < '0' || c > '9' {
            assert(!is_digit(d[i - start]));
            return None;
        }
        let digit = (c as u32 - '0' as u32) as u64;
        assert(d.take(i - start + 1).drop_last() =~= d.take(i - start));
        assert(all_digits(d.take(i - start + 1))) by {
            assert forall|j: int| 0 <= j < d.take(i - start + 1).len() implies is_digit(
                #[trigger] d.take(i - start + 1)[j],
            ) by {
                if j < i - start {
                    assert(d.take(i - start + 1)[j] == d.take(i - start)[j]);
                }
            }
        }
        if digit > max || value > (max - digit) / 10 {
            proof {
                assert(digits_value(d.take(i - start + 1)) == value * 10 + digit);
                if digit <= max {
                    assert(value * 10 + digit > max) by (nonlinear_arith)
                        requires
                            value > (max - digit) / 10,
                            0 <= digit <= max,
                    ;
                }
                if all_digits(d) {
                    lemma_digits_value_grows(d, i - start + 1);
                }
            }
            return None;
        }
        assert(value * 10 + digit <= max) by (nonlinear_arith)
            requires
                value <= (max - digit) / 10,
                0 <= digit <= 9,
        ;
        value = value * 10 + digit;
        i = i + 1;
    }
    assert(d.take(i - start) =~= d);
    Some(value)
}

/// `s` split at every `sep` (`str::split` with a character).
pub open spec fn split_char(s: Seq<char>, sep: char) -> Seq<Seq<char>>
    decreases s.len(),
{
    match find_idx(s, seq![sep], 0) {
        Some(i) => {
            proof {
                lemma_find_idx_bounds(s, seq![sep], 0);
            }
            seq![s.take(i)] + split_char(s.skip(i + 1), sep)
        },
        None => seq![s],
    }
}

/// The pieces of `v` between the separators `sep`.
pub fn split_char_exec(v: &Vec<char>, sep: char) -> (r: Vec<Vec<char>>)
    ensures
        char_views(r@) == split_char(v@, sep),
{
    let sep_v = vec![sep];
    assert(sep_v@ =~= seq![sep]);
    let mut out: Vec<Vec<char>> = Vec::new();
    let mut start: usize = 0;
    assert(v@.skip(0) =~= v@);
    loop
        invariant
            start <= v.len(),
            sep_v@ == seq![sep],
            char_views(out@) + split_char(v@.skip(start as int), sep) == split_char(v@, sep),
        decreases v.len() - start,
    {
        let ghost rest = v@.skip(start as int);
        let found = find_from(v, &sep_v, start);
        proof {
            lemma_find_idx_shift(v@, sep_v@, start as int);
            lemma_find_idx_bounds(v@, sep_v@, start as int);
        }
        let ghost before = char_views(out@);
        match found {
            Some(i) => {
                let piece = slice_chars(v, start, i);
                assert(piece@ =~= rest.take(i - start));
                assert(rest.skip(i - start + 1) =~= v@.skip(i + 1));
                out.push(piece);
                assert(char_views(out@) =~= before.push(piece@));
                assert(before + split_char(rest, sep) =~= char_views(out@) + split_char(
                    v@.skip(i + 1),
                    sep,
                ));
                start = i + 1;
            },
            None => {
                let piece = slice_chars(v, start, v.len());
                assert(piece@ =~= rest);
                out.push(piece);
                assert(char_views(out@) =~= before.push(piece@));
                assert(char_views(out@) =~= before + split_char(rest, sep));
                return out;
            },
        }
    }
}

/// An octet of a dotted IPv4 address: one to three digits, no leading zero,
/// at most 255.
pub open spec fn is_octet(p: Seq<char>) -> bool {
    1 <= p.len() <= 3 && all_digits(p) && (p.len() == 1 || p[0] != '0') && digits_value(p) <= 255
}

/// The four octets of a dotted IPv4 address, as `Ipv4Addr` reads it.
pub open spec fn parse_ipv4(s: Seq<char>) -> Option<Seq<int>> {
    let parts = split_char(s, '.');
    if parts.len() == 4 && forall|i: int| 0 <= i < 4 ==> is_octet(#[trigger] parts[i]) {
        Some(parts.map_values(|p: Seq<char>| digits_value(p)))
    } else {
        None
    }
}

/// Reads a dotted IPv4 address.
pub fn parse_ipv4_exec(v: &Vec<char>) -> (r: Option<[u8; 4]>)
    ensures
        match r {
            Some(a) => parse_ipv4(v@) == Some(seq![a[0] as int, a[1] as int, a[2] as int, a[3] as int]),
            None => parse_ipv4(v@) is None,
        },
{
    let parts = split_char_exec(v, '.');
    if parts.len() != 4 {
        return None;
    }
    let mut octets: [u8; 4] = [0; 4];
    let mut i: usize = 0;
    while i < 4
        invariant
            i <= 4,
            parts@.len() == 4,
            char_views(parts@) == split_char(v@, '.'),
            forall|j: int| 0 <= j < i ==> is_octet(#[trigger] char_views(parts@)[j]),
            forall|j: int| 0 <= j < i ==> octets[j] as int == digits_value(char_views(parts@)[j]),
        decreases 4 - i,
    {
        let p = &parts[i];
        assert(char_views(parts@)[i as int] == p@);
        if p.len() < 1 || p.len() > 3 || (p.len() > 1 && p[0] == '0') {
            return None;
        }
        match parse_uint_exec(p, 255) {
            Some(value) => {
                if p[0] == '+' {
                    return None;
                }
                assert(p@ =~= (if p@.len() > 0 && p@[0] == '+' {
                    p@.drop_first()
                } else {
                    p@
                }));
                octets[i] = value as u8;
                i = i + 1;
            },
            None => {
                proof {
                    if p@[0] != '+' {
                        assert(!is_octet(p@));
                    } else {
                        assert(!is_digit(p@[0]));
                    }
                }
                return None;
            },
        }
    }
    proof {
        let ps = split_char(v@, '.');
        assert(forall|j: int| 0 <= j < 4 ==> is_octet(#[trigger] ps[j]));
        assert(ps.map_values(|p: Seq<char>| digits_value(p)) =~= seq![
            octets[0] as int,
            octets[1] as int,
            octets[2] as int,
            octets[3] as int,
        ]);
    }
    Some(octets)
}

// ---------------------------------------------------------------------------
// Reading the environment
// ---------------------------------------------------------------------------

/// How a variable is read.
#[derive(Clone, Copy, Debug, PartialEq, Eq, Structural)]
pub enum ReadKind {
    Host,
    Port,
    U64,
    Usize,
    Str,
    Bool,
}

pub const UNICODE_MSG: &'static str = " 必须是合法的 Unicode 字符串";

pub const HOST_MSG: &'static str = " 必须是合法的 IPv4 地址";

pub const PORT_MSG: &'static str = " 必须是合法的端口号";

pub const UINT_MSG: &'static str = " 必须是正整数";

pub const BOOL_MSG: &'static str = " 必须是布尔值";

/// How a present value reads as a boolean: trimmed and lowercased, one of
/// the accepted true or false words.
pub open spec fn parse_bool(s: Seq<char>) -> Option<bool> {
    let t = ascii_lowercase(trim(s));
    if t == "true"@ || t == "1"@ || t == "yes"@ || t == "y"@ || t == "on"@ {
        Some(true)
    } else if t == "false"@ || t == "0"@ || t == "no"@ || t == "n"@ || t == "off"@ {
        Some(false)
    } else {
        None
    }
}

/// The largest value of a numeric kind.
pub open spec fn kind_max(kind: ReadKind) -> int {
    match kind {
        ReadKind::Port => u16::MAX as int,
        ReadKind::U64 => u64::MAX as int,
        _ => usize::MAX as int,
    }
}

/// Why a variable cannot be read as `kind`, if it cannot.
pub open spec fn read_error(kind: ReadKind, key: Seq<char>, v: EnvValue) -> Option<Seq<char>> {
    match v {
        EnvValue::NotPresent => None,
        EnvValue::NotUnicode => Some(key + UNICODE_MSG@),
        EnvValue::Present(s) => match kind {
            ReadKind::Str => None,
            ReadKind::Host => if parse_ipv4(s@) is Some {
                None
            } else {
                Some(key + HOST_MSG@)
            },
            ReadKind::Port => if parse_uint(s@, kind_max(kind)) is Some {
                None
            } else {
                Some(key + PORT_MSG@)
            },
            ReadKind::U64 | ReadKind::Usize => if parse_uint(s@, kind_max(kind)) is Some {
                None
            } else {
                Some(key + UINT_MSG@)
            },
            ReadKind::Bool => if parse_bool(s@) is Some {
                None
            } else {
                Some(key + BOOL_MSG@)
            },
        },
    }
}

/// The number of variables the service reads.
pub const KEY_COUNT: usize = 40;

/// The `i`-th variable of the service, in the order they are read, and how
/// it is read.
pub open spec fn config_key(i: int) -> (Seq<char>, ReadKind) {
    if i == 0 {
        ("APP_HOST"@, ReadKind::Host)
    } else if i == 1 {
        ("APP_PORT"@, ReadKind::Port)
    } else if i == 2 {
        ("APP_ALLOWED_ORIGIN"@, ReadKind::Str)
    } else if i == 3 {
        ("APP_REQUEST_TIMEOUT_SECS"@, ReadKind::U64)
    } else if i == 4 {
        ("APP_LOG_FILTER"@, ReadKind::Str)
    } else if i == 5 {
        ("APP_STATIC_DIR"@, ReadKind::Str)
    } else if i == 6 {
        ("APP_REDIS_URL"@, ReadKind::Str)
    } else if i == 7 {
        ("APP_CHAT_HISTORY_PATH"@, ReadKind::Str)
    } else if i == 8 {
        ("APP_SESSION_TTL_SECS"@, ReadKind::U64)
    } else if i == 9 {
        ("DASHSCOPE_API_KEY"@, ReadKind::Str)
    } else if i == 10 {
        ("DASHSCOPE_BASE_URL"@, ReadKind::Str)
    } else if i == 11 {
        ("DASHSCOPE_API_BASE_URL"@, ReadKind::Str)
    } else if i == 12 {
        ("DASHSCOPE_RESPONSES_RECTIFIER_ENABLED"@, ReadKind::Bool)
    } else if i == 13 {
        ("DASHSCOPE_CHAT_MODEL"@, ReadKind::Str)
    } else if i == 14 {
        ("APP_CHAT_AGENT_MAX_TURNS"@, ReadKind::Usize)
    } else if i == 15 {
        ("DASHSCOPE_EMBEDDING_MODEL"@, ReadKind::Str)
    } else if i == 16 {
        ("DASHSCOPE_RERANK_MODEL"@, ReadKind::Str)
    } else if i == 17 {
        ("DASHSCOPE_RERANK_URL"@, ReadKind::Str)
    } else if i == 18 {
        ("MILVUS_HOST"@, ReadKind::Str)
    } else if i == 19 {
        ("MILVUS_PORT"@, ReadKind::Port)
    } else if i == 20 {
        ("MILVUS_USERNAME"@, ReadKind::Str)
    } else if i == 21 {
        ("MILVUS_PASSWORD"@, ReadKind::Str)
    } else if i == 22 {
        ("MILVUS_DATABASE"@, ReadKind::Str)
    } else if i == 23 {
        ("MILVUS_TIMEOUT_MS"@, ReadKind::U64)
    } else if i == 24 {
        ("RAG_CANDIDATE_K"@, ReadKind::Usize)
    } else if i == 25 {
        ("RAG_SEARCH_EF"@, ReadKind::Usize)
    } else if i == 26 {
        ("FILE_UPLOAD_PATH"@, ReadKind::Str)
    } else if i == 27 {
        ("FILE_UPLOAD_ALLOWED_EXTENSIONS"@, ReadKind::Str)
    } else if i == 28 {
        ("DOCUMENT_CHUNK_MAX_SIZE"@, ReadKind::Usize)
    } else if i == 29 {
        ("DOCUMENT_CHUNK_OVERLAP"@, ReadKind::Usize)
    } else if i == 30 {
        ("APP_PRIVATE_MEMORY_RECALL_ENABLED"@, ReadKind::Bool)
    } else if i == 31 {
        ("APP_PRIVATE_MEMORY_RECALL_TOP_K"@, ReadKind::Usize)
    } else if i == 32 {
        ("APP_PRIVATE_MEMORY_STORE_PATH"@, ReadKind::Str)
    } else if i == 33 {
        ("PROMETHEUS_BASE_URL"@, ReadKind::Str)
    } else if i == 34 {
        ("PROMETHEUS_TIMEOUT"@, ReadKind::U64)
    } else if i == 35 {
        ("PROMETHEUS_MOCK_ENABLED"@, ReadKind::Bool)
    } else if i == 36 {
        ("CLS_MOCK_ENABLED"@, ReadKind::Bool)
    } else if i == 37 {
        ("DASHSCOPE_AI_OPS_CHAT_MODEL"@, ReadKind::Str)
    } else if i == 38 {
        ("APP_AI_OPS_AGENT_MAX_TURNS"@, ReadKind::Usize)
    } else {
        ("APP_AI_OPS_MAX_ROUNDS"@, ReadKind::Usize)
    }
}

/// The variables of the service, in the order they are read.
pub open spec fn config_keys() -> Seq<(Seq<char>, ReadKind)> {
    Seq::new(KEY_COUNT as nat, |i: int| config_key(i))
}

/// The names of the variables the service reads, in the order it reads
/// them.
pub fn config_key_names() -> (r: Vec<String>)
    ensures
        r@.len() == KEY_COUNT,
        forall|i: int| 0 <= i < KEY_COUNT ==> (#[trigger] r@[i])@ == config_key(i).0,
{
    let mut r: Vec<String> = Vec::new();
    let mut i: usize = 0;
    while i < KEY_COUNT
        invariant
            i <= KEY_COUNT,
            r@.len() == i,
            forall|k: int| 0 <= k < i ==> (#[trigger] r@[k])@ == config_key(k).0,
        decreases KEY_COUNT - i,
    {
        let (name, _) = key_at(i);
        r.push(crate::text::to_string(name));
        i = i + 1;
    }
    r
}

/// The `i`-th variable of the service and how it is read.
fn key_at(i: usize) -> (r: (&'static str, ReadKind))
    requires
        i < KEY_COUNT,
    ensures
        r.0@ == config_key(i as int).0,
        r.1 == config_key(i as int).1,
{
    if i == 0 {
        ("APP_HOST", ReadKind::Host)
    } else if i == 1 {
        ("APP_PORT", ReadKind::Port)
    } else if i == 2 {
        ("APP_ALLOWED_ORIGIN", ReadKind::Str)
    } else if i == 3 {
        ("APP_REQUEST_TIMEOUT_SECS", ReadKind::U64)
    } else if i == 4 {
        ("APP_LOG_FILTER", ReadKind::Str)
    } else if i == 5 {
        ("APP_STATIC_DIR", ReadKind::Str)
    } else if i == 6 {
        ("APP_REDIS_URL", ReadKind::Str)
    } else if i == 7 {
        ("APP_CHAT_HISTORY_PATH", ReadKind::Str)
    } else if i == 8 {
        ("APP_SESSION_TTL_SECS", ReadKind::U64)
    } else if i == 9 {
        ("DASHSCOPE_API_KEY", ReadKind::Str)
    } else if i == 10 {
        ("DASHSCOPE_BASE_URL", ReadKind::Str)
    } else if i == 11 {
        ("DASHSCOPE_API_BASE_URL", ReadKind::Str)
    } else if i == 12 {
        ("DASHSCOPE_RESPONSES_RECTIFIER_ENABLED", ReadKind::Bool)
    } else if i == 13 {
        ("DASHSCOPE_CHAT_MODEL", ReadKind::Str)
    } else if i == 14 {
        ("APP_CHAT_AGENT_MAX_TURNS", ReadKind::Usize)
    } else if i == 15 {
        ("DASHSCOPE_EMBEDDING_MODEL", ReadKind::Str)
    } else if i == 16 {
        ("DASHSCOPE_RERANK_MODEL", ReadKind::Str)
    } else if i == 17 {
        ("DASHSCOPE_RERANK_URL", ReadKind::Str)
    } else if i == 18 {
        ("MILVUS_HOST", ReadKind::Str)
    } else if i == 19 {
        ("MILVUS_PORT", ReadKind::Port)
    } else if i == 20 {
        ("MILVUS_USERNAME", ReadKind::Str)
    } else if i == 21 {
        ("MILVUS_PASSWORD", ReadKind::Str)
    } else if i == 22 {
        ("MILVUS_DATABASE", ReadKind::Str)
    } else if i == 23 {
        ("MILVUS_TIMEOUT_MS", ReadKind::U64)
    } else if i == 24 {
        ("RAG_CANDIDATE_K", ReadKind::Usize)
    } else if i == 25 {
        ("RAG_SEARCH_EF", ReadKind::Usize)
    } else if i == 26 {
        ("FILE_UPLOAD_PATH", ReadKind::Str)
    } else if i == 27 {
        ("FILE_UPLOAD_ALLOWED_EXTENSIONS", ReadKind::Str)
    } else if i == 28 {
        ("DOCUMENT_CHUNK_MAX_SIZE", ReadKind::Usize)
    } else if i == 29 {
        ("DOCUMENT_CHUNK_OVERLAP", ReadKind::Usize)
    } else if i == 30 {
        ("APP_PRIVATE_MEMORY_RECALL_ENABLED", ReadKind::Bool)
    } else if i == 31 {
        ("APP_PRIVATE_MEMORY_RECALL_TOP_K", ReadKind::Usize)
    } else if i == 32 {
        ("APP_PRIVATE_MEMORY_STORE_PATH", ReadKind::Str)
    } else if i == 33 {
        ("PROMETHEUS_BASE_URL", ReadKind::Str)
    } else if i == 34 {
        ("PROMETHEUS_TIMEOUT", ReadKind::U64)
    } else if i == 35 {
        ("PROMETHEUS_MOCK_ENABLED", ReadKind::Bool)
    } else if i == 36 {
        ("CLS_MOCK_ENABLED", ReadKind::Bool)
    } else if i == 37 {
        ("DASHSCOPE_AI_OPS_CHAT_MODEL", ReadKind::Str)
    } else if i == 38 {
        ("APP_AI_OPS_AGENT_MAX_TURNS", ReadKind::Usize)
    } else {
        ("APP_AI_OPS_MAX_ROUNDS", ReadKind::Usize)
    }
}

/// A snapshot of the environment: what each variable held when read.
pub struct EnvSnapshot {
    pub vars: Vec<(String, EnvValue)>,
}

/// What the snapshot holds for `key`: the first entry with that key.
pub open spec fn lookup(vars: Seq<(String, EnvValue)>, key: Seq<char>) -> EnvValue
    decreases vars.len(),
{
    if vars.len() == 0 {
        EnvValue::NotPresent
    } else if vars[0].0@ == key {
        vars[0].1
    } else {
        lookup(vars.drop_first(), key)
    }
}

/// Whether the variable `k` can be read as it is meant to be.
pub open spec fn key_ok(vars: Seq<(String, EnvValue)>, k: (Seq<char>, ReadKind)) -> bool {
    read_error(k.1, k.0, lookup(vars, k.0)) is None
}

/// The first error among the variables of `keys`, in order.
pub open spec fn first_read_error(
    vars: Seq<(String, EnvValue)>,
    keys: Seq<(Seq<char>, ReadKind)>,
) -> Option<Seq<char>>
    decreases keys.len(),
{
    if keys.len() == 0 {
        None
    } else {
        match read_error(keys[0].1, keys[0].0, lookup(vars, keys[0].0)) {
            Some(e) => Some(e),
            None => first_read_error(vars, keys.drop_first()),
        }
    }
}

proof fn lemma_first_read_error_at(
    vars: Seq<(String, EnvValue)>,
    keys: Seq<(Seq<char>, ReadKind)>,
    i: int,
)
    requires
        0 <= i < keys.len(),
        forall|j: int| 0 <= j < i ==> key_ok(vars, #[trigger] keys[j]),
        !key_ok(vars, keys[i]),
    ensures
        first_read_error(vars, keys) == read_error(keys[i].1, keys[i].0, lookup(vars, keys[i].0)),
    decreases i,
{
    if i > 0 {
        assert(key_ok(vars, keys[0]));
        assert forall|j: int| 0 <= j < i - 1 implies key_ok(vars, #[trigger] keys.drop_first()[j]) by {
            assert(keys.drop_first()[j] == keys[j + 1]);
        }
        lemma_first_read_error_at(vars, keys.drop_first(), i - 1);
    }
}

proof fn lemma_first_read_error_none(vars: Seq<(String, EnvValue)>, keys: Seq<(Seq<char>, ReadKind)>)
    requires
        forall|j: int| 0 <= j < keys.len() ==> key_ok(vars, #[trigger] keys[j]),
    ensures
        first_read_error(vars, keys) is None,
    decreases keys.len(),
{
    if keys.len() > 0 {
        assert(key_ok(vars, keys[0]));
        assert forall|j: int| 0 <= j < keys.len() - 1 implies key_ok(
            vars,
            #[trigger] keys.drop_first()[j],
        ) by {
            assert(keys.drop_first()[j] == keys[j + 1]);
        }
        lemma_first_read_error_none(vars, keys.drop_first());
    }
}

impl EnvSnapshot {
    /// What the snapshot holds for `key`, if it holds anything.
    pub fn get(&self, key: &str) -> (r: Option<&EnvValue>)
        ensures
            match r {
                Some(v) => *v == lookup(self.vars@, key@),
                None => lookup(self.vars@, key@) == EnvValue::NotPresent,
            },
    {
        let k = chars_of(key);
        let mut i: usize = 0;
        assert(self.vars@.skip(0) =~= self.vars@);
        while i < self.vars.len()
            invariant
                i <= self.vars.len(),
                k@ == key@,
                lookup(self.vars@.skip(i as int), key@) == lookup(self.vars@, key@),
            decreases self.vars.len() - i,
        {
            assert(self.vars@.skip(i as int)[0] == self.vars@[i as int]);
            assert(self.vars@.skip(i as int).drop_first() =~= self.vars@.skip(i + 1));
            if crate::text::chars_eq(&chars_of(self.vars[i].0.as_str()), &k) {
                return Some(&self.vars[i].1);
            }
            i = i + 1;
        }
        proof {
            assert(self.vars@.skip(i as int).len() == 0);
        }
        None
    }
}

impl View for ConfigError {
    type V = Seq<char>;

    open spec fn view(&self) -> Seq<char> {
        match self {
            ConfigError::InvalidValue(m) => m@,
        }
    }
}

fn invalid(key: &str, msg: &str) -> (e: ConfigError)
    ensures
        e@ == key@ + msg@,
{
    ConfigError::InvalidValue(concat(key, msg))
}

// ---------------------------------------------------------------------------
// Typed readers
// ---------------------------------------------------------------------------

/// The address a variable holds, if it holds a well-formed one.
pub open spec fn host_value(v: EnvValue) -> Option<Seq<int>> {
    match v {
        EnvValue::Present(s) => parse_ipv4(s@),
        _ => None,
    }
}

/// The number a variable holds, if it holds one no larger than `max`.
pub open spec fn uint_value(v: EnvValue, max: int) -> Option<int> {
    match v {
        EnvValue::Present(s) => parse_uint(s@, max),
        _ => None,
    }
}

/// The text a variable holds, trimmed; none where it is blank.
pub open spec fn string_value(v: EnvValue) -> Option<Seq<char>> {
    match v {
        EnvValue::Present(s) => if is_blank(s@) {
            None
        } else {
            Some(trim(s@))
        },
        _ => None,
    }
}

/// The boolean a variable holds, if it holds one.
pub open spec fn bool_value(v: EnvValue) -> Option<bool> {
    match v {
        EnvValue::Present(s) => parse_bool(s@),
        _ => None,
    }
}

/// Reads `key` as a dotted IPv4 address.
fn read_host(env: &EnvSnapshot, key: &str) -> (r: Result<Option<[u8; 4]>, ConfigError>)
    ensures
        match r {
            Err(e) => read_error(ReadKind::Host, key@, lookup(env.vars@, key@)) == Some(e@),
            Ok(o) => read_error(ReadKind::Host, key@, lookup(env.vars@, key@)) is None && match o {
                Some(a) => host_value(lookup(env.vars@, key@)) == Some(
                    seq![a[0] as int, a[1] as int, a[2] as int, a[3] as int],
                ),
                None => host_value(lookup(env.vars@, key@)) is None,
            },
        },
{
    match env.get(key) {
        None => Ok(None),
        Some(EnvValue::NotPresent) => Ok(None),
        Some(EnvValue::NotUnicode) => Err(invalid(key, UNICODE_MSG)),
        Some(EnvValue::Present(s)) => match parse_ipv4_exec(&chars_of(s.as_str())) {
            Some(a) => Ok(Some(a)),
            None => Err(invalid(key, HOST_MSG)),
        },
    }
}

/// Reads `key` as an unsigned number of kind `kind`, no larger than `max`.
fn read_uint(env: &EnvSnapshot, key: &str, kind: ReadKind, max: u64) -> (r: Result<
    Option<u64>,
    ConfigError,
>)
    requires
        kind == ReadKind::Port || kind == ReadKind::U64 || kind == ReadKind::Usize,
        max as int == kind_max(kind),
    ensures
        match r {
            Err(e) => read_error(kind, key@, lookup(env.vars@, key@)) == Some(e@),
            Ok(o) => read_error(kind, key@, lookup(env.vars@, key@)) is None && match o {
                Some(n) => uint_value(lookup(env.vars@, key@), max as int) == Some(n as int),
                None => uint_value(lookup(env.vars@, key@), max as int) is None,
            },
        },
{
    match env.get(key) {
        None => Ok(None),
        Some(EnvValue::NotPresent) => Ok(None),
        Some(EnvValue::NotUnicode) => Err(invalid(key, UNICODE_MSG)),
        Some(EnvValue::Present(s)) => match parse_uint_exec(&chars_of(s.as_str()), max) {
            Some(n) => Ok(Some(n)),
            None => {
                if kind == ReadKind::Port {
                    Err(invalid(key, PORT_MSG))
                } else {
                    Err(invalid(key, UINT_MSG))
                }
            },
        },
    }
}

/// Reads `key` as a port number.
fn read_port(env: &EnvSnapshot, key: &str) -> (r: Result<Option<u16>, ConfigError>)
    ensures
        match r {
            Err(e) => read_error(ReadKind::Port, key@, lookup(env.vars@, key@)) == Some(e@),
            Ok(o) => read_error(ReadKind::Port, key@, lookup(env.vars@, key@)) is None && match o {
                Some(n) => uint_value(lookup(env.vars@, key@), u16::MAX as int) == Some(n as int),
                None => uint_value(lookup(env.vars@, key@), u16::MAX as int) is None,
            },
        },
{
    match read_uint(env, key, ReadKind::Port, 65535) {
        Ok(Some(n)) => Ok(Some(n as u16)),
        Ok(None) => Ok(None),
        Err(e) => Err(e),
    }
}

/// Reads `key` as a `u64`.
fn read_u64(env: &EnvSnapshot, key: &str) -> (r: Result<Option<u64>, ConfigError>)
    ensures
        match r {
            Err(e) => read_error(ReadKind::U64, key@, lookup(env.vars@, key@)) == Some(e@),
            Ok(o) => read_error(ReadKind::U64, key@, lookup(env.vars@, key@)) is None && match o {
                Some(n) => uint_value(lookup(env.vars@, key@), u64::MAX as int) == Some(n as int),
                None => uint_value(lookup(env.vars@, key@), u64::MAX as int) is None,
            },
        },
{
    read_uint(env, key, ReadKind::U64, u64::MAX)
}

/// Reads `key` as a `usize`.
fn read_usize(env: &EnvSnapshot, key: &str) -> (r: Result<Option<usize>, ConfigError>)
    ensures
        match r {
            Err(e) => read_error(ReadKind::Usize, key@, lookup(env.vars@, key@)) == Some(e@),
            Ok(o) => read_error(ReadKind::Usize, key@, lookup(env.vars@, key@)) is None && match o {
                Some(n) => uint_value(lookup(env.vars@, key@), usize::MAX as int) == Some(n as int),
                None => uint_value(lookup(env.vars@, key@), usize::MAX as int) is None,
            },
        },
{
    match read_uint(env, key, ReadKind::Usize, usize::MAX as u64) {
        Ok(Some(n)) => Ok(Some(n as usize)),
        Ok(None) => Ok(None),
        Err(e) => Err(e),
    }
}

/// Reads `key` as text, trimmed; a blank value counts as unset.
fn read_string(env: &EnvSnapshot, key: &str) -> (r: Result<Option<String>, ConfigError>)
    ensures
        match r {
            Err(e) => read_error(ReadKind::Str, key@, lookup(env.vars@, key@)) == Some(e@),
            Ok(o) => read_error(ReadKind::Str, key@, lookup(env.vars@, key@)) is None && match o {
                Some(s) => string_value(lookup(env.vars@, key@)) == Some(s@),
                None => string_value(lookup(env.vars@, key@)) is None,
            },
        },
{
    match env.get(key) {
        None => Ok(None),
        Some(EnvValue::NotPresent) => Ok(None),
        Some(EnvValue::NotUnicode) => Err(invalid(key, UNICODE_MSG)),
        Some(EnvValue::Present(s)) => {
            if is_blank_str(s.as_str()) {
                Ok(None)
            } else {
                Ok(Some(trim_str(s.as_str())))
            }
        },
    }
}

/// Reads `key` as a boolean.
fn read_bool(env: &EnvSnapshot, key: &str) -> (r: Result<Option<bool>, ConfigError>)
    ensures
        match r {
            Err(e) => read_error(ReadKind::Bool, key@, lookup(env.vars@, key@)) == Some(e@),
            Ok(o) => read_error(ReadKind::Bool, key@, lookup(env.vars@, key@)) is None && o
                == bool_value(lookup(env.vars@, key@)),
        },
{
    match env.get(key) {
        None => Ok(None),
        Some(EnvValue::NotPresent) => Ok(None),
        Some(EnvValue::NotUnicode) => Err(invalid(key, UNICODE_MSG)),
        Some(EnvValue::Present(s)) => {
            let t = trim_str(s.as_str());
            let l = to_ascii_lowercase(t.as_str());
            let w = l.as_str();
            if str_eq(w, "true") || str_eq(w, "1") || str_eq(w, "yes") || str_eq(w, "y")
                || str_eq(w, "on") {
                Ok(Some(true))
            } else if str_eq(w, "false") || str_eq(w, "0") || str_eq(w, "no") || str_eq(w, "n")
                || str_eq(w, "off") {
                Ok(Some(false))
            } else {
                Err(invalid(key, BOOL_MSG))
            }
        },
    }
}

/// Reads `key` as its kind says, keeping only whether it could be read.
fn check_var(env: &EnvSnapshot, key: &str, kind: ReadKind) -> (r: Result<(), ConfigError>)
    ensures
        match r {
            Err(e) => read_error(kind, key@, lookup(env.vars@, key@)) == Some(e@),
            Ok(_) => read_error(kind, key@, lookup(env.vars@, key@)) is None,
        },
{
    match kind {
        ReadKind::Host => match read_host(env, key) {
            Ok(_) => Ok(()),
            Err(e) => Err(e),
        },
        ReadKind::Port => match read_port(env, key) {
            Ok(_) => Ok(()),
            Err(e) => Err(e),
        },
        ReadKind::U64 => match read_u64(env, key) {
            Ok(_) => Ok(()),
            Err(e) => Err(e),
        },
        ReadKind::Usize => match read_usize(env, key) {
            Ok(_) => Ok(()),
            Err(e) => Err(e),
        },
        ReadKind::Str => match read_string(env, key) {
            Ok(_) => Ok(()),
            Err(e) => Err(e),
        },
        ReadKind::Bool => match read_bool(env, key) {
            Ok(_) => Ok(()),
            Err(e) => Err(e),
        },
    }
}

// ---------------------------------------------------------------------------
// The whole configuration
// ---------------------------------------------------------------------------

pub const POSITIVE_MSG: &'static str = " 必须大于 0";

pub const EMPTY_MSG: &'static str = " 不能为空";

/// The text of a variable, or `d` where it is unset or blank.
pub open spec fn string_or(v: EnvValue, d: Seq<char>) -> Seq<char> {
    match string_value(v) {
        Some(s) => s,
        None => d,
    }
}

/// The number of a variable, or `d` where it is unset.
pub open spec fn uint_or(v: EnvValue, max: int, d: int) -> int {
    match uint_value(v, max) {
        Some(n) => n,
        None => d,
    }
}

/// The boolean of a variable, or `d` where it is unset.
pub open spec fn bool_or(v: EnvValue, d: bool) -> bool {
    match bool_value(v) {
        Some(b) => b,
        None => d,
    }
}

/// The address of a variable, or the loopback address where it is unset.
pub open spec fn host_or(v: EnvValue) -> Seq<int> {
    match host_value(v) {
        Some(a) => a,
        None => seq![127, 0, 0, 1],
    }
}

pub open spec fn opt_view(o: Option<String>) -> Option<Seq<char>> {
    match o {
        Some(s) => Some(s@),
        None => None,
    }
}

/// The items of `ps`, trimmed and lowercased, without the empty ones.
pub open spec fn clean_items(ps: Seq<Seq<char>>) -> Seq<Seq<char>>
    decreases ps.len(),
{
    if ps.len() == 0 {
        seq![]
    } else {
        let t = ascii_lowercase(trim(ps.last()));
        if t.len() == 0 {
            clean_items(ps.drop_last())
        } else {
            clean_items(ps.drop_last()).push(t)
        }
    }
}

/// The file extensions listed in `s`, separated by commas.
pub open spec fn extension_list(s: Seq<char>) -> Seq<Seq<char>> {
    clean_items(split_char(s, ','))
}

/// The settings of the service.
#[derive(Clone, Debug)]
pub struct AppConfig {
    pub host: [u8; 4],
    pub port: u16,
    pub allowed_origin: String,
    pub request_timeout_secs: u64,
    pub log_filter: String,
    pub static_dir: String,
    pub redis_url: Option<String>,
    pub chat_history_path: String,
    pub session_ttl_secs: u64,
    pub dashscope_api_key: Option<String>,
    pub dashscope_base_url: String,
    pub dashscope_api_base_url: String,
    pub dashscope_responses_rectifier_enabled: bool,
    pub dashscope_chat_model: String,
    pub chat_agent_max_turns: usize,
    pub dashscope_embedding_model: String,
    pub dashscope_rerank_model: String,
    pub dashscope_rerank_url: String,
    pub milvus_host: String,
    pub milvus_port: u16,
    pub milvus_username: String,
    pub milvus_password: String,
    pub milvus_database: String,
    pub milvus_timeout_ms: u64,
    pub rag_candidate_k: usize,
    pub rag_search_ef: usize,
    pub upload_path: String,
    pub upload_allowed_extensions: Vec<String>,
    pub document_chunk_max_size: usize,
    pub document_chunk_overlap: usize,
    pub private_memory_recall_enabled: bool,
    pub private_memory_recall_top_k: usize,
    pub private_memory_store_path: String,
    pub prometheus_base_url: String,
    pub prometheus_timeout_secs: u64,
    pub prometheus_mock_enabled: bool,
    pub cls_mock_enabled: bool,
    pub ai_ops_chat_model: String,
    pub ai_ops_agent_max_turns: usize,
    pub ai_ops_max_rounds: usize,
}

/// The value that refuses the configuration, after every variable was read.
pub open spec fn validation_error(vars: Seq<(String, EnvValue)>) -> Option<Seq<char>> {
    if uint_or(lookup(vars, "APP_REQUEST_TIMEOUT_SECS"@), u64::MAX as int, 30) == 0 {
        Some("APP_REQUEST_TIMEOUT_SECS"@ + POSITIVE_MSG@)
    } else if uint_or(lookup(vars, "APP_SESSION_TTL_SECS"@), u64::MAX as int, 3600) == 0 {
        Some("APP_SESSION_TTL_SECS"@ + POSITIVE_MSG@)
    } else if uint_or(lookup(vars, "APP_PRIVATE_MEMORY_RECALL_TOP_K"@), usize::MAX as int, 3) == 0 {
        Some("APP_PRIVATE_MEMORY_RECALL_TOP_K"@ + POSITIVE_MSG@)
    } else if uint_or(lookup(vars, "APP_CHAT_AGENT_MAX_TURNS"@), usize::MAX as int, 6) == 0 {
        Some("APP_CHAT_AGENT_MAX_TURNS"@ + POSITIVE_MSG@)
    } else if uint_or(lookup(vars, "APP_AI_OPS_AGENT_MAX_TURNS"@), usize::MAX as int, 12) == 0 {
        Some("APP_AI_OPS_AGENT_MAX_TURNS"@ + POSITIVE_MSG@)
    } else if uint_or(lookup(vars, "APP_AI_OPS_MAX_ROUNDS"@), usize::MAX as int, 8) == 0 {
        Some("APP_AI_OPS_MAX_ROUNDS"@ + POSITIVE_MSG@)
    } else if uint_or(lookup(vars, "MILVUS_TIMEOUT_MS"@), u64::MAX as int, 10000) == 0 {
        Some("MILVUS_TIMEOUT_MS"@ + POSITIVE_MSG@)
    } else if uint_or(lookup(vars, "RAG_CANDIDATE_K"@), usize::MAX as int, 10) == 0 {
        Some("RAG_CANDIDATE_K"@ + POSITIVE_MSG@)
    } else if uint_or(lookup(vars, "RAG_SEARCH_EF"@), usize::MAX as int, 64) == 0 {
        Some("RAG_SEARCH_EF"@ + POSITIVE_MSG@)
    } else if extension_list(string_or(lookup(vars, "FILE_UPLOAD_ALLOWED_EXTENSIONS"@), "txt,md"@)).len() == 0 {
        Some("FILE_UPLOAD_ALLOWED_EXTENSIONS"@ + EMPTY_MSG@)
    } else if uint_or(lookup(vars, "DOCUMENT_CHUNK_MAX_SIZE"@), usize::MAX as int, 800) == 0 {
        Some("DOCUMENT_CHUNK_MAX_SIZE"@ + POSITIVE_MSG@)
    } else {
        None
    }
}

/// Why the environment `vars` gives no configuration, if it gives none:
/// the first variable, in the order read, that cannot be read, else the
/// first setting refused.
pub open spec fn config_error(vars: Seq<(String, EnvValue)>) -> Option<Seq<char>> {
    match first_read_error(vars, config_keys()) {
        Some(e) => Some(e),
        None => validation_error(vars),
    }
}


/// The address `key` holds, or the loopback address where it is unset.
fn host_setting(env: &EnvSnapshot, key: &str) -> (r: [u8; 4])
    requires
        key_ok(env.vars@, (key@, ReadKind::Host)),
    ensures
        seq![r[0] as int, r[1] as int, r[2] as int, r[3] as int] == host_or(lookup(env.vars@, key@)),
{
    let r = match read_host(env, key) {
        Ok(Some(a)) => a,
        _ => [127u8, 0, 0, 1],
    };
    r
}

/// The port `key` holds, or `d` where it is unset.
fn port_setting(env: &EnvSnapshot, key: &str, d: u16) -> (r: u16)
    requires
        key_ok(env.vars@, (key@, ReadKind::Port)),
    ensures
        r as int == uint_or(lookup(env.vars@, key@), u16::MAX as int, d as int),
{
    match read_port(env, key) {
        Ok(Some(n)) => n,
        _ => d,
    }
}

/// The `u64` `key` holds, or `d` where it is unset.
fn u64_setting(env: &EnvSnapshot, key: &str, d: u64) -> (r: u64)
    requires
        key_ok(env.vars@, (key@, ReadKind::U64)),
    ensures
        r as int == uint_or(lookup(env.vars@, key@), u64::MAX as int, d as int),
{
    match read_u64(env, key) {
        Ok(Some(n)) => n,
        _ => d,
    }
}

/// The `usize` `key` holds, or `d` where it is unset.
fn usize_setting(env: &EnvSnapshot, key: &str, d: usize) -> (r: usize)
    requires
        key_ok(env.vars@, (key@, ReadKind::Usize)),
    ensures
        r as int == uint_or(lookup(env.vars@, key@), usize::MAX as int, d as int),
{
    match read_usize(env, key) {
        Ok(Some(n)) => n,
        _ => d,
    }
}

/// The boolean `key` holds, or `d` where it is unset.
fn bool_setting(env: &EnvSnapshot, key: &str, d: bool) -> (r: bool)
    requires
        key_ok(env.vars@, (key@, ReadKind::Bool)),
    ensures
        r == bool_or(lookup(env.vars@, key@), d),
{
    match read_bool(env, key) {
        Ok(Some(b)) => b,
        _ => d,
    }
}

/// The trimmed text `key` holds, or `d` where it is unset or blank.
fn string_setting(env: &EnvSnapshot, key: &str, d: &str) -> (r: String)
    requires
        key_ok(env.vars@, (key@, ReadKind::Str)),
    ensures
        r@ == string_or(lookup(env.vars@, key@), d@),
{
    match read_string(env, key) {
        Ok(Some(s)) => s,
        _ => to_string(d),
    }
}

/// The trimmed text `key` holds, if it is set and not blank.
fn optional_setting(env: &EnvSnapshot, key: &str) -> (r: Option<String>)
    requires
        key_ok(env.vars@, (key@, ReadKind::Str)),
    ensures
        opt_view(r) == string_value(lookup(env.vars@, key@)),
{
    match read_string(env, key) {
        Ok(o) => o,
        Err(_) => None,
    }
}

impl AppConfig {
    /// Every setting is what `vars` gives it, or its default.
    pub open spec fn matches_env(&self, vars: Seq<(String, EnvValue)>) -> bool {
        &&& seq![self.host[0] as int, self.host[1] as int, self.host[2] as int, self.host[3] as int]
            == host_or(lookup(vars, "APP_HOST"@))
        &&& self.port as int == uint_or(lookup(vars, "APP_PORT"@), u16::MAX as int, 3000)
        &&& self.allowed_origin@ == string_or(lookup(vars, "APP_ALLOWED_ORIGIN"@), "*"@)
        &&& self.request_timeout_secs as int == uint_or(lookup(vars, "APP_REQUEST_TIMEOUT_SECS"@), u64::MAX as int, 30)
        &&& self.log_filter@ == string_or(lookup(vars, "APP_LOG_FILTER"@), "info"@)
        &&& self.static_dir@ == string_or(lookup(vars, "APP_STATIC_DIR"@), "./static"@)
        &&& opt_view(self.redis_url) == string_value(lookup(vars, "APP_REDIS_URL"@))
        &&& self.chat_history_path@ == string_or(lookup(vars, "APP_CHAT_HISTORY_PATH"@), "./data/chat-history"@)
        &&& self.session_ttl_secs as int == uint_or(lookup(vars, "APP_SESSION_TTL_SECS"@), u64::MAX as int, 3600)
        &&& opt_view(self.dashscope_api_key) == string_value(lookup(vars, "DASHSCOPE_API_KEY"@))
        &&& self.dashscope_base_url@ == string_or(lookup(vars, "DASHSCOPE_BASE_URL"@), "https://dashscope.aliyuncs.com/compatible-mode/v1"@)
        &&& self.dashscope_api_base_url@ == string_or(lookup(vars, "DASHSCOPE_API_BASE_URL"@), "https://dashscope.aliyuncs.com/api/v1"@)
        &&& self.dashscope_responses_rectifier_enabled == bool_or(lookup(vars, "DASHSCOPE_RESPONSES_RECTIFIER_ENABLED"@), false)
        &&& self.dashscope_chat_model@ == string_or(lookup(vars, "DASHSCOPE_CHAT_MODEL"@), "qwen-plus"@)
        &&& self.chat_agent_max_turns as int == uint_or(lookup(vars, "APP_CHAT_AGENT_MAX_TURNS"@), usize::MAX as int, 6)
        &&& self.dashscope_embedding_model@ == string_or(lookup(vars, "DASHSCOPE_EMBEDDING_MODEL"@), "text-embedding-v4"@)
        &&& self.dashscope_rerank_model@ == string_or(lookup(vars, "DASHSCOPE_RERANK_MODEL"@), "gte-rerank"@)
        &&& self.dashscope_rerank_url@ == string_or(lookup(vars, "DASHSCOPE_RERANK_URL"@), "https://dashscope.aliyuncs.com/api/v1/services/rerank/text-rerank/text-rerank"@)
        &&& self.milvus_host@ == string_or(lookup(vars, "MILVUS_HOST"@), "localhost"@)
        &&& self.milvus_port as int == uint_or(lookup(vars, "MILVUS_PORT"@), u16::MAX as int, 19530)
        &&& self.milvus_username@ == string_or(lookup(vars, "MILVUS_USERNAME"@), ""@)
        &&& self.milvus_password@ == string_or(lookup(vars, "MILVUS_PASSWORD"@), ""@)
        &&& self.milvus_database@ == string_or(lookup(vars, "MILVUS_DATABASE"@), "default"@)
        &&& self.milvus_timeout_ms as int == uint_or(lookup(vars, "MILVUS_TIMEOUT_MS"@), u64::MAX as int, 10000)
        &&& self.rag_candidate_k as int == uint_or(lookup(vars, "RAG_CANDIDATE_K"@), usize::MAX as int, 10)
        &&& self.rag_search_ef as int == uint_or(lookup(vars, "RAG_SEARCH_EF"@), usize::MAX as int, 64)
        &&& self.upload_path@ == string_or(lookup(vars, "FILE_UPLOAD_PATH"@), "./uploads"@)
        &&& views(self.upload_allowed_extensions@) == extension_list(string_or(lookup(vars, "FILE_UPLOAD_ALLOWED_EXTENSIONS"@), "txt,md"@))
        &&& self.document_chunk_max_size as int == uint_or(lookup(vars, "DOCUMENT_CHUNK_MAX_SIZE"@), usize::MAX as int, 800)
        &&& self.document_chunk_overlap as int == uint_or(lookup(vars, "DOCUMENT_CHUNK_OVERLAP"@), usize::MAX as int, 100)
        &&& self.private_memory_recall_enabled == bool_or(lookup(vars, "APP_PRIVATE_MEMORY_RECALL_ENABLED"@), true)
        &&& self.private_memory_recall_top_k as int == uint_or(lookup(vars, "APP_PRIVATE_MEMORY_RECALL_TOP_K"@), usize::MAX as int, 3)
        &&& self.private_memory_store_path@ == string_or(lookup(vars, "APP_PRIVATE_MEMORY_STORE_PATH"@), "./data/private-memories"@)
        &&& self.prometheus_base_url@ == string_or(lookup(vars, "PROMETHEUS_BASE_URL"@), "http://localhost:9090"@)
        &&& self.prometheus_timeout_secs as int == uint_or(lookup(vars, "PROMETHEUS_TIMEOUT"@), u64::MAX as int, 10)
        &&& self.prometheus_mock_enabled == bool_or(lookup(vars, "PROMETHEUS_MOCK_ENABLED"@), false)
        &&& self.cls_mock_enabled == bool_or(lookup(vars, "CLS_MOCK_ENABLED"@), false)
        &&& self.ai_ops_chat_model@ == string_or(lookup(vars, "DASHSCOPE_AI_OPS_CHAT_MODEL"@), string_or(lookup(vars, "DASHSCOPE_CHAT_MODEL"@), "qwen-plus"@))
        &&& self.ai_ops_agent_max_turns as int == uint_or(lookup(vars, "APP_AI_OPS_AGENT_MAX_TURNS"@), usize::MAX as int, 12)
        &&& self.ai_ops_max_rounds as int == uint_or(lookup(vars, "APP_AI_OPS_MAX_ROUNDS"@), usize::MAX as int, 8)
    }

    /// Reads the configuration from the environment snapshot `env`.
    pub fn from_env(env: &EnvSnapshot) -> (r: Result<AppConfig, ConfigError>)
        ensures
            match r {
                Ok(c) => config_error(env.vars@) is None && c.matches_env(env.vars@),
                Err(e) => config_error(env.vars@) == Some(e@),
            },
    {
        let ghost vars = env.vars@;
        let mut i: usize = 0;
        while i < KEY_COUNT
            invariant
                i <= KEY_COUNT,
                vars == env.vars@,
                forall|j: int| 0 <= j < i ==> key_ok(vars, #[trigger] config_key(j)),
            decreases KEY_COUNT - i,
        {
            let (key, kind) = key_at(i);
            match check_var(env, key, kind) {
                Ok(_) => {},
                Err(e) => {
                    proof {
                        assert forall|j: int| 0 <= j < i implies key_ok(
                            vars,
                            #[trigger] config_keys()[j],
                        ) by {
                            assert(config_keys()[j] == config_key(j));
                        }
                        assert(config_keys()[i as int] == config_key(i as int));
                        lemma_first_read_error_at(vars, config_keys(), i as int);
                    }
                    return Err(e);
                },
            }
            i = i + 1;
        }
        proof {
            assert forall|j: int| 0 <= j < config_keys().len() implies key_ok(
                vars,
                #[trigger] config_keys()[j],
            ) by {
                assert(config_keys()[j] == config_key(j));
            }
            lemma_first_read_error_none(vars, config_keys());
        }
        Self::read_settings(env)
    }

    /// Reads every setting, once every variable is known to be readable.
    fn read_settings(env: &EnvSnapshot) -> (r: Result<AppConfig, ConfigError>)
        requires
            forall|j: int| 0 <= j < KEY_COUNT ==> key_ok(env.vars@, #[trigger] config_key(j)),
        ensures
            match r {
                Ok(c) => validation_error(env.vars@) is None && c.matches_env(env.vars@),
                Err(e) => validation_error(env.vars@) == Some(e@),
            },
    {
        let ghost vars = env.vars@;
        proof {
            assert(key_ok(vars, config_key(0)));
        }
        let host = host_setting(env, "APP_HOST");
        proof {
            assert(key_ok(vars, config_key(1)));
        }
        let port = port_setting(env, "APP_PORT", 3000);
        proof {
            assert(key_ok(vars, config_key(2)));
        }
        let allowed_origin = string_setting(env, "APP_ALLOWED_ORIGIN", "*");
        proof {
            assert(key_ok(vars, config_key(3)));
        }
        let request_timeout_secs = u64_setting(env, "APP_REQUEST_TIMEOUT_SECS", 30);
        proof {
            assert(key_ok(vars, config_key(4)));
        }
        let log_filter = string_setting(env, "APP_LOG_FILTER", "info");
        proof {
            assert(key_ok(vars, config_key(5)));
        }
        let static_dir = string_setting(env, "APP_STATIC_DIR", "./static");
        proof {
            assert(key_ok(vars, config_key(6)));
        }
        let redis_url = optional_setting(env, "APP_REDIS_URL");
        proof {
            assert(key_ok(vars, config_key(7)));
        }
        let chat_history_path = string_setting(env, "APP_CHAT_HISTORY_PATH", "./data/chat-history");
        proof {
            assert(key_ok(vars, config_key(8)));
        }
        let session_ttl_secs = u64_setting(env, "APP_SESSION_TTL_SECS", 3600);
        proof {
            assert(key_ok(vars, config_key(9)));
        }
        let dashscope_api_key = optional_setting(env, "DASHSCOPE_API_KEY");
        proof {
            assert(key_ok(vars, config_key(10)));
        }
        let dashscope_base_url = string_setting(env, "DASHSCOPE_BASE_URL", "https://dashscope.aliyuncs.com/compatible-mode/v1");
        proof {
            assert(key_ok(vars, config_key(11)));
        }
        let dashscope_api_base_url = string_setting(env, "DASHSCOPE_API_BASE_URL", "https://dashscope.aliyuncs.com/api/v1");
        proof {
            assert(key_ok(vars, config_key(12)));
        }
        let dashscope_responses_rectifier_enabled = bool_setting(env, "DASHSCOPE_RESPONSES_RECTIFIER_ENABLED", false);
        proof {
            assert(key_ok(vars, config_key(13)));
        }
        let dashscope_chat_model = string_setting(env, "DASHSCOPE_CHAT_MODEL", "qwen-plus");
        proof {
            assert(key_ok(vars, config_key(14)));
        }
        let chat_agent_max_turns = usize_setting(env, "APP_CHAT_AGENT_MAX_TURNS", 6);
        proof {
            assert(key_ok(vars, config_key(15)));
        }
        let dashscope_embedding_model = string_setting(env, "DASHSCOPE_EMBEDDING_MODEL", "text-embedding-v4");
        proof {
            assert(key_ok(vars, config_key(16)));
        }
        let dashscope_rerank_model = string_setting(env, "DASHSCOPE_RERANK_MODEL", "gte-rerank");
        proof {
            assert(key_ok(vars, config_key(17)));
        }
        let dashscope_rerank_url = string_setting(env, "DASHSCOPE_RERANK_URL", "https://dashscope.aliyuncs.com/api/v1/services/rerank/text-rerank/text-rerank");
        proof {
            assert(key_ok(vars, config_key(18)));
        }
        let milvus_host = string_setting(env, "MILVUS_HOST", "localhost");
        proof {
            assert(key_ok(vars, config_key(19)));
        }
        let milvus_port = port_setting(env, "MILVUS_PORT", 19530);
        proof {
            assert(key_ok(vars, config_key(20)));
        }
        let milvus_username = string_setting(env, "MILVUS_USERNAME", "");
        proof {
            assert(key_ok(vars, config_key(21)));
        }
        let milvus_password = string_setting(env, "MILVUS_PASSWORD", "");
        proof {
            assert(key_ok(vars, config_key(22)));
        }
        let milvus_database = string_setting(env, "MILVUS_DATABASE", "default");
        proof {
            assert(key_ok(vars, config_key(23)));
        }
        let milvus_timeout_ms = u64_setting(env, "MILVUS_TIMEOUT_MS", 10000);
        proof {
            assert(key_ok(vars, config_key(24)));
        }
        let rag_candidate_k = usize_setting(env, "RAG_CANDIDATE_K", 10);
        proof {
            assert(key_ok(vars, config_key(25)));
        }
        let rag_search_ef = usize_setting(env, "RAG_SEARCH_EF", 64);
        proof {
            assert(key_ok(vars, config_key(26)));
        }
        let upload_path = string_setting(env, "FILE_UPLOAD_PATH", "./uploads");
        proof {
            assert(key_ok(vars, config_key(27)));
        }
        let upload_allowed_extensions = parse_extensions(string_setting(env, "FILE_UPLOAD_ALLOWED_EXTENSIONS", "txt,md").as_str());
        proof {
            assert(key_ok(vars, config_key(28)));
        }
        let document_chunk_max_size = usize_setting(env, "DOCUMENT_CHUNK_MAX_SIZE", 800);
        proof {
            assert(key_ok(vars, config_key(29)));
        }
        let document_chunk_overlap = usize_setting(env, "DOCUMENT_CHUNK_OVERLAP", 100);
        proof {
            assert(key_ok(vars, config_key(30)));
        }
        let private_memory_recall_enabled = bool_setting(env, "APP_PRIVATE_MEMORY_RECALL_ENABLED", true);
        proof {
            assert(key_ok(vars, config_key(31)));
        }
        let private_memory_recall_top_k = usize_setting(env, "APP_PRIVATE_MEMORY_RECALL_TOP_K", 3);
        proof {
            assert(key_ok(vars, config_key(32)));
        }
        let private_memory_store_path = string_setting(env, "APP_PRIVATE_MEMORY_STORE_PATH", "./data/private-memories");
        proof {
            assert(key_ok(vars, config_key(33)));
        }
        let prometheus_base_url = string_setting(env, "PROMETHEUS_BASE_URL", "http://localhost:9090");
        proof {
            assert(key_ok(vars, config_key(34)));
        }
        let prometheus_timeout_secs = u64_setting(env, "PROMETHEUS_TIMEOUT", 10);
        proof {
            assert(key_ok(vars, config_key(35)));
        }
        let prometheus_mock_enabled = bool_setting(env, "PROMETHEUS_MOCK_ENABLED", false);
        proof {
            assert(key_ok(vars, config_key(36)));
        }
        let cls_mock_enabled = bool_setting(env, "CLS_MOCK_ENABLED", false);
        proof {
            assert(key_ok(vars, config_key(37)));
        }
        let ai_ops_chat_model = string_setting(env, "DASHSCOPE_AI_OPS_CHAT_MODEL", dashscope_chat_model.as_str());
        proof {
            assert(key_ok(vars, config_key(38)));
        }
        let ai_ops_agent_max_turns = usize_setting(env, "APP_AI_OPS_AGENT_MAX_TURNS", 12);
        proof {
            assert(key_ok(vars, config_key(39)));
        }
        let ai_ops_max_rounds = usize_setting(env, "APP_AI_OPS_MAX_ROUNDS", 8);
        if request_timeout_secs == 0 {
            return Err(invalid("APP_REQUEST_TIMEOUT_SECS", POSITIVE_MSG));
        }
        if session_ttl_secs == 0 {
            return Err(invalid("APP_SESSION_TTL_SECS", POSITIVE_MSG));
        }
        if private_memory_recall_top_k == 0 {
            return Err(invalid("APP_PRIVATE_MEMORY_RECALL_TOP_K", POSITIVE_MSG));
        }
        if chat_agent_max_turns == 0 {
            return Err(invalid("APP_CHAT_AGENT_MAX_TURNS", POSITIVE_MSG));
        }
        if ai_ops_agent_max_turns == 0 {
            return Err(invalid("APP_AI_OPS_AGENT_MAX_TURNS", POSITIVE_MSG));
        }
        if ai_ops_max_rounds == 0 {
            return Err(invalid("APP_AI_OPS_MAX_ROUNDS", POSITIVE_MSG));
        }
        if milvus_timeout_ms == 0 {
            return Err(invalid("MILVUS_TIMEOUT_MS", POSITIVE_MSG));
        }
        if rag_candidate_k == 0 {
            return Err(invalid("RAG_CANDIDATE_K", POSITIVE_MSG));
        }
        if rag_search_ef == 0 {
            return Err(invalid("RAG_SEARCH_EF", POSITIVE_MSG));
        }
        if upload_allowed_extensions.len() == 0 {
            return Err(invalid("FILE_UPLOAD_ALLOWED_EXTENSIONS", EMPTY_MSG));
        }
        if document_chunk_max_size == 0 {
            return Err(invalid("DOCUMENT_CHUNK_MAX_SIZE", POSITIVE_MSG));
        }
        Ok(AppConfig {
            host,
            port,
            allowed_origin,
            request_timeout_secs,
            log_filter,
            static_dir,
            redis_url,
            chat_history_path,
            session_ttl_secs,
            dashscope_api_key,
            dashscope_base_url,
            dashscope_api_base_url,
            dashscope_responses_rectifier_enabled,
            dashscope_chat_model,
            chat_agent_max_turns,
            dashscope_embedding_model,
            dashscope_rerank_model,
            dashscope_rerank_url,
            milvus_host,
            milvus_port,
            milvus_username,
            milvus_password,
            milvus_database,
            milvus_timeout_ms,
            rag_candidate_k,
            rag_search_ef,
            upload_path,
            upload_allowed_extensions,
            document_chunk_max_size,
            document_chunk_overlap,
            private_memory_recall_enabled,
            private_memory_recall_top_k,
            private_memory_store_path,
            prometheus_base_url,
            prometheus_timeout_secs,
            prometheus_mock_enabled,
            cls_mock_enabled,
            ai_ops_chat_model,
            ai_ops_agent_max_turns,
            ai_ops_max_rounds,
        })
    }
}

/// The extensions listed in `s`, trimmed and lowercased, without empty items.
pub fn parse_extensions(s: &str) -> (r: Vec<String>)
    ensures
        views(r@) == extension_list(s@),
{
    let v = chars_of(s);
    let parts = split_char_exec(&v, ',');
    let ghost ps = char_views(parts@);
    let mut out: Vec<String> = Vec::new();
    let mut i: usize = 0;
    while i < parts.len()
        invariant
            i <= parts.len(),
            ps == char_views(parts@),
            ps == split_char(s@, ','),
            views(out@) == clean_items(ps.take(i as int)),
        decreases parts.len() - i,
    {
        let t = trim_chars(&parts[i]);
        let ts = string_of(&t);
        let l = to_ascii_lowercase(ts.as_str());
        assert(ps.take(i + 1).drop_last() =~= ps.take(i as int));
        assert(ps.take(i + 1).last() == parts@[i as int]@);
        if !l.as_str().is_empty() {
            let ghost before = views(out@);
            let ghost lv = l@;
            out.push(l);
            assert(views(out@) =~= before.push(lv));
        }
        i = i + 1;
    }
    assert(ps.take(parts.len() as int) =~= ps);
    out
}

} // verus!
