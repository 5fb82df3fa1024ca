//! Checks on an uploaded file before it is stored: its name, its extension
//! and its size.
use vstd::prelude::*;

use crate::config::{split_char, split_char_exec};
use crate::model::FileUploadRes;
use crate::text::{
    ascii_lowercase, char_views, chars_of, contains, join, join_strings, replace, replace_chars,
    slice_chars, str_contains, str_eq, string_of, to_ascii_lowercase, to_string, trim,
    trim_chars, views,
};

verus! {

pub const NAME_REQUIRED_MSG: &'static str = "文件名不能为空";

pub const BAD_PATH_MSG: &'static str = "非法的路径格式: ";

pub const BAD_FORMAT_MSG: &'static str = "不支持的文件格式，仅支持: ";

pub const EMPTY_FILE_MSG: &'static str = "文件不能为空";

pub const ACCEPTED_STATUS: &'static str = "INDEXING";

pub const ACCEPTED_MSG: &'static str = "文件已接收，索引处理中";

proof fn lemma_split_char_nonempty(s: Seq<char>, c: char)
    ensures
        split_char(s, c).len() > 0,
{
}

/// The name a client sent, without any directory part: backslashes read as
/// slashes, the text after the last slash, trimmed.
pub open spec fn clean_file_name_spec(v: Seq<char>) -> Seq<char> {
    trim(split_char(replace(v, seq!['\\'], seq!['/']), '/').last())
}

/// The file name without any directory part (see `clean_file_name_spec`).
pub fn clean_file_name(value: &str) -> (r: String)
    ensures
        r@ == clean_file_name_spec(value@),
{
    let v = chars_of(value);
    let from = vec!['\\'];
    let to = vec!['/'];
    assert(from@ =~= seq!['\\']);
    assert(to@ =~= seq!['/']);
    let replaced = replace_chars(&v, &from, &to);
    let parts = split_char_exec(&replaced, '/');
    proof {
        lemma_split_char_nonempty(replaced@, '/');
        assert(char_views(parts@).len() == parts@.len());
    }
    let last = &parts[parts.len() - 1];
    assert(char_views(parts@).last() == last@);
    string_of(&trim_chars(last))
}

/// The index of the last `c` in `s`.
pub open spec fn last_index_of(s: Seq<char>, c: char) -> Option<int>
    decreases s.len(),
{
    if s.len() == 0 {
        None
    } else if s.last() == c {
        Some(s.len() - 1)
    } else {
        last_index_of(s.drop_last(), c)
    }
}

/// The extension of a file name, lowercased: what follows its last dot, or
/// nothing where it has no dot.
pub open spec fn file_extension(name: Seq<char>) -> Seq<char> {
    match last_index_of(name, '.') {
        Some(i) => ascii_lowercase(name.skip(i + 1)),
        None => seq![],
    }
}

/// The extension of `name` (see `file_extension`).
pub fn extension_of(name: &str) -> (r: String)
    ensures
        r@ == file_extension(name@),
{
    let v = chars_of(name);
    let mut i: usize = v.len();
    assert(v@.take(i as int) =~= v@);
    while i > 0
        invariant
            i <= v.len(),
            v@ == name@,
            last_index_of(name@, '.') == last_index_of(v@.take(i as int), '.'),
        decreases i,
    {
        assert(v@.take(i as int).drop_last() =~= v@.take(i - 1));
        if v[i - 1] == '.' {
            let rest = slice_chars(&v, i, v.len());
            assert(rest@ =~= name@.skip(i as int));
            let s = string_of(&rest);
            return to_ascii_lowercase(s.as_str());
        }
        i = i - 1;
    }
    assert(ascii_lowercase(Seq::<char>::empty()) =~= Seq::<char>::empty());
    String::new()
}

/// Whether the extension of `name` is one of `allowed`.
pub fn is_allowed_extension(file_name: &str, allowed_extensions: &Vec<String>) -> (r: bool)
    ensures
        r == views(allowed_extensions@).contains(file_extension(file_name@)),
{
    let ext = extension_of(file_name);
    let mut i: usize = 0;
    while i < allowed_extensions.len()
        invariant
            i <= allowed_extensions.len(),
            ext@ == file_extension(file_name@),
            forall|j: int| 0 <= j < i ==> views(allowed_extensions@)[j] != ext@,
        decreases allowed_extensions.len() - i,
    {
        assert(views(allowed_extensions@)[i as int] == allowed_extensions@[i as int]@);
        if str_eq(allowed_extensions[i].as_str(), ext.as_str()) {
            return true;
        }
        i = i + 1;
    }
    false
}

/// Why an upload is refused, if it is: no file name; a name that is empty
/// or climbs directories once cleaned; an extension not allowed; no file
/// content.
pub open spec fn upload_error(
    name: Option<Seq<char>>,
    size: Option<int>,
    allowed: Seq<Seq<char>>,
) -> Option<Seq<char>> {
    match name {
        None => Some(NAME_REQUIRED_MSG@),
        Some(n) => {
            let c = clean_file_name_spec(n);
            if c.len() == 0 || contains(c, ".."@) {
                Some(BAD_PATH_MSG@ + c)
            } else if !allowed.contains(file_extension(c)) {
                Some(BAD_FORMAT_MSG@ + join(allowed, ","@))
            } else if size is None || size == Some(0int) {
                Some(EMPTY_FILE_MSG@)
            } else {
                None
            }
        },
    }
}

/// Checks an upload: the file name the client sent, the size of the file
/// content if any came, and the allowed extensions. Gives the cleaned file
/// name, or the message the request is refused with.
pub fn check_upload(file_name: Option<&str>, size: Option<usize>, allowed_extensions: &Vec<String>) -> (r:
    Result<String, String>)
    ensures
        match r {
            Ok(c) => upload_error(
                match file_name {
                    Some(n) => Some(n@),
                    None => None,
                },
                match size {
                    Some(s) => Some(s as int),
                    None => None,
                },
                views(allowed_extensions@),
            ) is None && c@ == clean_file_name_spec(file_name.unwrap()@),
            Err(m) => upload_error(
                match file_name {
                    Some(n) => Some(n@),
                    None => None,
                },
                match size {
                    Some(s) => Some(s as int),
                    None => None,
                },
                views(allowed_extensions@),
            ) == Some(m@),
        },
{
    let name = match file_name {
        None => {
            return Err(to_string(NAME_REQUIRED_MSG));
        },
        Some(n) => n,
    };
    let clean = clean_file_name(name);
    if clean.as_str().is_empty() || str_contains(clean.as_str(), "..") {
        let mut v = chars_of(BAD_PATH_MSG);
        crate::text::append_str(&mut v, clean.as_str());
        return Err(string_of(&v));
    }
    if !is_allowed_extension(clean.as_str(), allowed_extensions) {
        let mut v = chars_of(BAD_FORMAT_MSG);
        let joined = join_strings(allowed_extensions, ",");
        crate::text::append_str(&mut v, joined.as_str());
        return Err(string_of(&v));
    }
    match size {
        None => {
            return Err(to_string(EMPTY_FILE_MSG));
        },
        Some(s) => {
            if s == 0 {
                return Err(to_string(EMPTY_FILE_MSG));
            }
        },
    }
    Ok(clean)
}

/// The answer to an accepted upload, once the file is stored and its
/// indexing task created.
pub fn accepted_upload(file_name: String, file_path: String, size: u64, task_id: String) -> (r:
    FileUploadRes)
    ensures
        r.file_name@ == file_name@,
        r.file_path@ == file_path@,
        r.size == size,
        r.task_id@ == task_id@,
        r.status@ == ACCEPTED_STATUS@,
        r.message@ == ACCEPTED_MSG@,
{
    FileUploadRes {
        file_name,
        file_path,
        size,
        task_id,
        status: to_string(ACCEPTED_STATUS),
        message: to_string(ACCEPTED_MSG),
    }
}

} // verus!
