//! What indexing a document writes to the vector store: the normalized
//! path it is filed under, and for each chunk its id, text, sparse vector
//! and metadata.
use vstd::prelude::*;

use crate::config::{split_char, split_char_exec};
use crate::incident::{i64_to_string, signed_decimal};
use crate::json::{str_of, JsonValue};
use crate::model::DocumentChunk;
use crate::sparse::{count_of, generate_sparse_vector, is_sparse, key_count};
use crate::text::{
    append_chars, append_str, char_views, chars_of, concat, decimal, is_blank, lowercase,
    string_of, to_string, u64_to_string,
};
use crate::upload::last_index_of;
use crate::vector_search::{escape_expr_value, escape_expr_value_spec};

verus! {

pub const SOURCE_FILTER_HEAD: &'static str = "metadata[\"_source\"] == \"";

pub const DOCUMENT_DOC_TYPE: &'static str = "document";

/// The name-based id (`Uuid::new_v5` in the OID namespace) of `name`, in
/// its hyphenated form.
pub uninterp spec fn uuid_v5_oid(name: Seq<char>) -> Seq<char>;

/// `Uuid::new_v5(&Uuid::NAMESPACE_OID, input.as_bytes()).to_string()`: a
/// function of `input` alone, named `uuid_v5_oid`.
#[verifier::external_body]
pub(crate) fn deterministic_id(input: &str) -> (r: String)
    ensures
        r@ == uuid_v5_oid(input@),
{
    uuid::Uuid::new_v5(&uuid::Uuid::NAMESPACE_OID, input.as_bytes()).to_string()
}

/// A path segment that is `.`.
pub open spec fn is_dot(s: Seq<char>) -> bool {
    s.len() == 1 && s[0] == '.'
}

/// A path segment that is `..`.
pub open spec fn is_dot_dot(s: Seq<char>) -> bool {
    s.len() == 2 && s[0] == '.' && s[1] == '.'
}

/// The components left of the segments `segs` once `.` and empty
/// segments are dropped and each `..` removes the component before it
/// (where there is one).
pub open spec fn lexical_stack(segs: Seq<Seq<char>>) -> Seq<Seq<char>>
    decreases segs.len(),
{
    if segs.len() == 0 {
        seq![]
    } else {
        let s = lexical_stack(segs.drop_last());
        let x = segs.last();
        if x.len() == 0 || is_dot(x) {
            s
        } else if is_dot_dot(x) {
            if s.len() > 0 {
                s.drop_last()
            } else {
                s
            }
        } else {
            s.push(x)
        }
    }
}

/// `parts` joined with `/`.
pub open spec fn join_slash(parts: Seq<Seq<char>>) -> Seq<char>
    decreases parts.len(),
{
    if parts.len() == 0 {
        seq![]
    } else if parts.len() == 1 {
        parts[0]
    } else {
        join_slash(parts.drop_last()) + seq!['/'] + parts.last()
    }
}

/// A path with `.` and `..` resolved lexically, as the store files it: a
/// leading `/` is kept, the rest is the resolved components joined by `/`.
pub open spec fn normalize_path_spec(p: Seq<char>) -> Seq<char> {
    (if p.len() > 0 && p[0] == '/' {
        seq!['/']
    } else {
        seq![]
    }) + join_slash(lexical_stack(split_char(p, '/')))
}

/// The path `p` with `.` and `..` resolved (see `normalize_path_spec`).
pub fn normalize_path(p: &str) -> (r: String)
    ensures
        r@ == normalize_path_spec(p@),
{
    let v = chars_of(p);
    let segs = split_char_exec(&v, '/');
    let ghost sv = char_views(segs@);
    let mut stack: Vec<Vec<char>> = Vec::new();
    let mut i: usize = 0;
    while i < segs.len()
        invariant
            i <= segs.len(),
            sv == char_views(segs@),
            char_views(stack@) == lexical_stack(sv.take(i as int)),
        decreases segs.len() - i,
    {
        let x = &segs[i];
        assert(sv.take(i + 1).drop_last() =~= sv.take(i as int));
        assert(sv.take(i + 1).last() == x@);
        let ghost before = char_views(stack@);
        if x.len() == 0 || (x.len() == 1 && x[0] == '.') {
        } else if x.len() == 2 && x[0] == '.' && x[1] == '.' {
            if stack.len() > 0 {
                stack.pop();
                assert(char_views(stack@) =~= before.drop_last());
            }
        } else {
            stack.push(x.clone());
            assert(char_views(stack@) =~= before.push(x@));
        }
        i = i + 1;
    }
    assert(sv.take(segs.len() as int) =~= sv);
    let ghost parts = char_views(stack@);
    let mut out: Vec<char> = Vec::new();
    if v.len() > 0 && v[0] == '/' {
        out.push('/');
    }
    let ghost head = out@;
    let mut k: usize = 0;
    while k < stack.len()
        invariant
            k <= stack.len(),
            parts == char_views(stack@),
            out@ == head + join_slash(parts.take(k as int)),
        decreases stack.len() - k,
    {
        assert(parts.take(k + 1).drop_last() =~= parts.take(k as int));
        if k > 0 {
            out.push('/');
        }
        append_chars(&mut out, &stack[k]);
        assert(out@ =~= head + join_slash(parts.take(k + 1)));
        k = k + 1;
    }
    assert(parts.take(stack.len() as int) =~= parts);
    string_of(&out)
}

/// The last component of the segments `segs` that is not empty or `.`.
pub open spec fn last_component(segs: Seq<Seq<char>>) -> Option<Seq<char>>
    decreases segs.len(),
{
    if segs.len() == 0 {
        None
    } else if segs.last().len() == 0 || is_dot(segs.last()) {
        last_component(segs.drop_last())
    } else {
        Some(segs.last())
    }
}

/// The file name of a path (`Path::file_name`): its last component, none
/// where there is none or it is `..`.
pub open spec fn file_name_spec(p: Seq<char>) -> Option<Seq<char>> {
    match last_component(split_char(p, '/')) {
        Some(c) => if is_dot_dot(c) {
            None
        } else {
            Some(c)
        },
        None => None,
    }
}

/// The extension of a file name (`Path::extension`): what follows its last
/// dot, none where it has none or the dot starts the name.
pub open spec fn extension_spec(name: Seq<char>) -> Option<Seq<char>> {
    match last_index_of(name, '.') {
        Some(i) => if i == 0 {
            None
        } else {
            Some(name.skip(i + 1))
        },
        None => None,
    }
}

/// The file name of `p` (see `file_name_spec`).
pub fn file_name_of(p: &str) -> (r: Option<String>)
    ensures
        match r {
            Some(s) => file_name_spec(p@) == Some(s@),
            None => file_name_spec(p@) is None,
        },
{
    let v = chars_of(p);
    let segs = split_char_exec(&v, '/');
    let ghost sv = char_views(segs@);
    let mut i: usize = segs.len();
    assert(sv.take(i as int) =~= sv);
    while i > 0
        invariant
            i <= segs.len(),
            sv == char_views(segs@),
            sv == split_char(p@, '/'),
            last_component(sv) == last_component(sv.take(i as int)),
        decreases i,
    {
        let x = &segs[i - 1];
        assert(sv.take(i as int).drop_last() =~= sv.take(i - 1));
        assert(sv.take(i as int).last() == x@);
        if !(x.len() == 0 || (x.len() == 1 && x[0] == '.')) {
            if x.len() == 2 && x[0] == '.' && x[1] == '.' {
                return None;
            }
            return Some(string_of(x));
        }
        i = i - 1;
    }
    None
}

/// The extension of the file name `name` (see `extension_spec`).
pub fn extension_part(name: &str) -> (r: Option<String>)
    ensures
        match r {
            Some(s) => extension_spec(name@) == Some(s@),
            None => extension_spec(name@) is None,
        },
{
    let v = chars_of(name);
    let mut i: usize = v.len();
    assert(v@.take(i as int) =~= v@);
    while i > 0
        invariant
            i <= v.len(),
            v@ == name@,
            last_index_of(name@, '.') == last_index_of(v@.take(i as int), '.'),
        decreases i,
    {
        assert(v@.take(i as int).drop_last() =~= v@.take(i - 1));
        if v[i - 1] == '.' {
            if i == 1 {
                return None;
            }
            let rest = crate::text::slice_chars(&v, i, v.len());
            assert(rest@ =~= name@.skip(i as int));
            return Some(string_of(&rest));
        }
        i = i - 1;
    }
    None
}

/// The filter that selects what the store holds of the file `normalized`.
pub open spec fn source_filter_spec(normalized: Seq<char>) -> Seq<char> {
    SOURCE_FILTER_HEAD@ + escape_expr_value_spec(normalized) + seq!['"']
}

/// The filter that selects what the store holds of a file (see
/// `source_filter_spec`).
pub fn source_filter_expr(normalized: &str) -> (r: String)
    ensures
        r@ == source_filter_spec(normalized@),
{
    let mut v = chars_of(SOURCE_FILTER_HEAD);
    let escaped = escape_expr_value(normalized);
    append_str(&mut v, escaped.as_str());
    v.push('"');
    string_of(&v)
}

/// The field `p` is `key` holding the string `text`.
pub open spec fn text_field(p: (String, JsonValue), key: Seq<char>, text: Seq<char>) -> bool {
    p.0@ == key && str_of(Some(p.1)) == Some(text)
}

/// The field `p` is `key` holding the number written `digits`.
pub open spec fn number_field(p: (String, JsonValue), key: Seq<char>, digits: Seq<char>) -> bool {
    &&& p.0@ == key
    &&& match p.1 {
        JsonValue::Number(n) => n@ == digits,
        _ => false,
    }
}

/// The metadata of the chunk `chunk`, one of `total`, of the file at
/// `path`: its normalized path, the document kind, the file's extension
/// (with its dot) and name, the chunk's place, and its title where it has
/// one.
pub open spec fn document_metadata_spec(m: JsonValue, path: Seq<char>, chunk: DocumentChunk, total: nat) -> bool {
    let name = match file_name_spec(path) {
        Some(n) => n,
        None => seq![],
    };
    let ext = match extension_spec(name) {
        Some(e) => if file_name_spec(path) is Some {
            seq!['.'] + e
        } else {
            seq![]
        },
        None => seq![],
    };
    match m {
        JsonValue::Object(f) => {
            &&& f@.len() == (if chunk.title@.len() == 0 {
                6int
            } else {
                7int
            })
            &&& text_field(f@[0], "_source"@, normalize_path_spec(path))
            &&& text_field(f@[1], "doc_type"@, DOCUMENT_DOC_TYPE@)
            &&& text_field(f@[2], "_extension"@, ext)
            &&& text_field(f@[3], "_file_name"@, name)
            &&& number_field(f@[4], "chunkIndex"@, signed_decimal(chunk.chunk_index as int))
            &&& number_field(f@[5], "totalChunks"@, decimal(total))
            &&& chunk.title@.len() > 0 ==> text_field(f@[6], "title"@, chunk.title@)
        },
        _ => false,
    }
}

/// The metadata of a chunk of the file at `path` (see
/// `document_metadata_spec`).
pub fn build_document_metadata(path: &str, chunk: &DocumentChunk, total_chunks: usize) -> (r:
    JsonValue)
    ensures
        document_metadata_spec(r, path@, *chunk, total_chunks as nat),
{
    let normalized = normalize_path(path);
    let (name, ext) = match file_name_of(path) {
        Some(n) => {
            let e = match extension_part(n.as_str()) {
                Some(e) => concat(".", e.as_str()),
                None => String::new(),
            };
            (n, e)
        },
        None => (String::new(), String::new()),
    };
    proof {
        reveal_strlit(".");
        assert("."@ =~= seq!['.']);
        let spec_name = match file_name_spec(path@) {
            Some(n) => n,
            None => seq![],
        };
        assert(name@ == spec_name);
        assert(ext@ == match extension_spec(spec_name) {
            Some(e) => if file_name_spec(path@) is Some {
                seq!['.'] + e
            } else {
                seq![]
            },
            None => seq![],
        });
    }
    let mut f: Vec<(String, JsonValue)> = Vec::new();
    f.push((to_string("_source"), JsonValue::Str(normalized)));
    f.push((to_string("doc_type"), JsonValue::Str(to_string(DOCUMENT_DOC_TYPE))));
    f.push((to_string("_extension"), JsonValue::Str(ext)));
    f.push((to_string("_file_name"), JsonValue::Str(name)));
    f.push((to_string("chunkIndex"), JsonValue::Number(i64_to_string(chunk.chunk_index as i64))));
    f.push((to_string("totalChunks"), JsonValue::Number(u64_to_string(total_chunks as u64))));
    if chunk.title.as_str().unicode_len() > 0 {
        f.push((to_string("title"), JsonValue::Str(chunk.title.clone())));
    }
    JsonValue::Object(f)
}

/// One chunk as it is written to the vector store, but for its dense
/// vector.
pub struct IndexedChunk {
    pub id: String,
    pub content: String,
    pub sparse_vector: Vec<(i64, u64)>,
    pub metadata: JsonValue,
}

/// `e` is the chunk `chunk`, one of `total`, of the file at `path`: its
/// id is made from its source and place, its sparse vector from its text.
pub open spec fn is_indexed_chunk(e: IndexedChunk, path: Seq<char>, chunk: DocumentChunk, total: nat) -> bool {
    &&& e.id@ == uuid_v5_oid(
        normalize_path_spec(path) + seq!['_'] + signed_decimal(chunk.chunk_index as int),
    )
    &&& e.content@ == chunk.content@
    &&& is_sparse(e.sparse_vector@)
    &&& forall|k: int|
        #[trigger] count_of(e.sparse_vector@, k) == (if is_blank(chunk.content@) {
            0
        } else {
            key_count(lowercase(chunk.content@), k)
        })
    &&& document_metadata_spec(e.metadata, path, chunk, total)
}

/// What indexing the chunks of the file at `path` writes, chunk by chunk
/// (see `is_indexed_chunk`).
pub fn index_entries(path: &str, chunks: &Vec<DocumentChunk>) -> (r: Vec<IndexedChunk>)
    ensures
        r@.len() == chunks@.len(),
        forall|i: int|
            0 <= i < r@.len() ==> is_indexed_chunk(
                #[trigger] r@[i],
                path@,
                chunks@[i],
                chunks@.len() as nat,
            ),
{
    let normalized = normalize_path(path);
    let total = chunks.len();
    let mut out: Vec<IndexedChunk> = Vec::new();
    let mut i: usize = 0;
    while i < total
        invariant
            total == chunks@.len(),
            normalized@ == normalize_path_spec(path@),
            i <= total,
            out@.len() == i,
            forall|j: int|
                0 <= j < i ==> is_indexed_chunk(#[trigger] out@[j], path@, chunks@[j], total as nat),
        decreases total - i,
    {
        let chunk = &chunks[i];
        let mut key = chars_of(normalized.as_str());
        key.push('_');
        let index_text = i64_to_string(chunk.chunk_index as i64);
        append_str(&mut key, index_text.as_str());
        let key_s = string_of(&key);
        assert(key_s@ == normalize_path_spec(path@) + seq!['_'] + signed_decimal(
            chunks@[i as int].chunk_index as int,
        ));
        let id = deterministic_id(key_s.as_str());
        let entry = IndexedChunk {
            id,
            content: chunk.content.clone(),
            sparse_vector: generate_sparse_vector(chunk.content.as_str()),
            metadata: build_document_metadata(path, chunk, total),
        };
        assert(is_indexed_chunk(entry, path@, chunks@[i as int], total as nat));
        out.push(entry);
        i = i + 1;
    }
    out
}

} // verus!
