//! Private memories: what of a conversation that left the session window
//! is sent to the model to be distilled, and the facts its reply yields.
use vstd::prelude::*;

use crate::config::{split_char, split_char_exec, AppConfig};
use crate::json::{get, str_of, JsonValue};
use crate::model::ChatMessage;
use crate::text::{
    append_chars, append_str, ascii_lowercase, char_views, chars_of, concat, is_blank,
    is_blank_str, string_of, to_ascii_lowercase, to_string, trim, trim_chars, trim_str,
};

verus! {

pub const MEMORY_PREFIX: &'static str = "[用户私人记忆] ";

pub const NO_FACTS: &'static str = "none";

pub const CONVERSATION_HEAD: &'static str = "对话记录如下：\n";

pub const EXTRACTION_PROMPT: &'static str = "你是记忆分析专家。请分析以下用户和AI的对话，提取出其中长期有价值的技术事实、用户偏好、业务上下文或排障结论。\n规则：\n1. 提取的事实必须客观、清晰、简短，以第一人称（用户视角）或者第三人称陈述。\n2. 忽略寒暄、无意义的提问或暂时性的信息。\n3. 如果对话中没有任何值得长期记忆的价值，请严格且仅输出 'NONE'。\n4. 如果有多个事实，请用分号 ';' 隔开。";

pub const COMPLETIONS_PATH: &'static str = "/chat/completions";

/// The settings memories are distilled with.
pub struct MemoryExtractionService {
    pub api_key: Option<String>,
    pub chat_base_url: String,
    pub chat_model: String,
}

/// A conversation as the model reads it: each message as `role: content`
/// on a line of its own.
pub open spec fn conversation_spec(h: Seq<ChatMessage>) -> Seq<char>
    decreases h.len(),
{
    if h.len() == 0 {
        seq![]
    } else {
        conversation_spec(h.drop_last()) + h.last().role@ + ": "@ + h.last().content@ + seq!['\n']
    }
}

/// `s` without the characters `c` at its end.
pub open spec fn strip_trailing(s: Seq<char>, c: char) -> Seq<char>
    decreases s.len(),
{
    if s.len() > 0 && s.last() == c {
        strip_trailing(s.drop_last(), c)
    } else {
        s
    }
}

/// The pieces of `parts` that are not blank, trimmed and marked as private
/// memories.
pub open spec fn memory_contents(parts: Seq<Seq<char>>) -> Seq<Seq<char>>
    decreases parts.len(),
{
    if parts.len() == 0 {
        seq![]
    } else {
        let rest = memory_contents(parts.drop_last());
        let t = trim(parts.last());
        if t.len() == 0 {
            rest
        } else {
            rest.push(MEMORY_PREFIX@ + t)
        }
    }
}

/// The memories a reply of the model yields: none where it is blank or
/// says `NONE` (in any case), else each fact between semicolons.
pub open spec fn facts_spec(reply: Seq<char>) -> Seq<Seq<char>> {
    let t = trim(reply);
    if t.len() == 0 || ascii_lowercase(t) == NO_FACTS@ {
        seq![]
    } else {
        memory_contents(split_char(t, ';'))
    }
}

impl MemoryExtractionService {
    pub fn new(config: &AppConfig) -> (r: Self)
        ensures
            r.api_key == config.dashscope_api_key,
            r.chat_base_url == config.dashscope_base_url,
            r.chat_model == config.dashscope_chat_model,
    {
        MemoryExtractionService {
            api_key: match &config.dashscope_api_key {
                Some(k) => Some(k.clone()),
                None => None,
            },
            chat_base_url: config.dashscope_base_url.clone(),
            chat_model: config.dashscope_chat_model.clone(),
        }
    }

    /// Whether messages that left the session `session_id` are distilled:
    /// only where the session is named, there are messages and the model
    /// can be called.
    pub fn should_extract(&self, session_id: &str, history: &Vec<ChatMessage>) -> (r: bool)
        ensures
            r == (!is_blank(session_id@) && history@.len() > 0 && self.api_key is Some),
    {
        !is_blank_str(session_id) && history.len() > 0 && self.api_key.is_some()
    }

    /// The address of the model's chat completions.
    pub fn completions_url(&self) -> (r: String)
        ensures
            r@ == strip_trailing(self.chat_base_url@, '/') + COMPLETIONS_PATH@,
    {
        let v = chars_of(self.chat_base_url.as_str());
        let mut n: usize = v.len();
        assert(v@.take(n as int) =~= v@);
        while n > 0 && v[n - 1] == '/'
            invariant
                n <= v@.len(),
                strip_trailing(v@, '/') == strip_trailing(v@.take(n as int), '/'),
            decreases n,
        {
            assert(v@.take(n as int).drop_last() =~= v@.take(n - 1));
            n = n - 1;
        }
        let mut out = crate::text::slice_chars(&v, 0, n);
        assert(out@ =~= v@.take(n as int));
        append_str(&mut out, COMPLETIONS_PATH);
        string_of(&out)
    }

    /// What the model is asked: the distilling instructions, then the
    /// conversation.
    pub fn extraction_request(&self, conversation: &str) -> (r: JsonValue)
        ensures
            str_of(get(r, "model"@)) == Some(self.chat_model@),
            get(r, "messages"@) matches Some(JsonValue::Array(m)) && m@.len() == 2
                && str_of(get(m@[0], "role"@)) == Some("system"@)
                && str_of(get(m@[0], "content"@)) == Some(EXTRACTION_PROMPT@)
                && str_of(get(m@[1], "role"@)) == Some("user"@)
                && str_of(get(m@[1], "content"@)) == Some(CONVERSATION_HEAD@ + conversation@),
    {
        proof {
            lemma_request_keys();
        }
        let mut system: Vec<(String, JsonValue)> = Vec::new();
        system.push((to_string("role"), JsonValue::Str(to_string("system"))));
        system.push((to_string("content"), JsonValue::Str(to_string(EXTRACTION_PROMPT))));
        let mut user: Vec<(String, JsonValue)> = Vec::new();
        user.push((to_string("role"), JsonValue::Str(to_string("user"))));
        user.push((to_string("content"), JsonValue::Str(concat(CONVERSATION_HEAD, conversation))));
        let mut messages: Vec<JsonValue> = Vec::new();
        messages.push(JsonValue::Object(system));
        messages.push(JsonValue::Object(user));
        let mut f: Vec<(String, JsonValue)> = Vec::new();
        f.push((to_string("model"), JsonValue::Str(self.chat_model.clone())));
        f.push((to_string("messages"), JsonValue::Array(messages)));
        proof {
            reveal_with_fuel(crate::json::find_key, 3);
        }
        JsonValue::Object(f)
    }
}

proof fn lemma_request_keys()
    ensures
        "role"@ != "content"@,
        "model"@ != "messages"@,
{
    reveal_strlit("role");
    reveal_strlit("content");
    reveal_strlit("model");
    reveal_strlit("messages");
    assert("role"@.len() != "content"@.len());
    assert("model"@.len() != "messages"@.len());
}

/// A conversation as the model reads it (see `conversation_spec`).
pub fn conversation_text(history: &Vec<ChatMessage>) -> (r: String)
    ensures
        r@ == conversation_spec(history@),
{
    let mut v: Vec<char> = Vec::new();
    let mut i: usize = 0;
    while i < history.len()
        invariant
            i <= history@.len(),
            v@ == conversation_spec(history@.take(i as int)),
        decreases history.len() - i,
    {
        assert(history@.take(i + 1).drop_last() =~= history@.take(i as int));
        append_str(&mut v, history[i].role.as_str());
        append_str(&mut v, ": ");
        append_str(&mut v, history[i].content.as_str());
        v.push('\n');
        assert(v@ =~= conversation_spec(history@.take(i + 1)));
        i = i + 1;
    }
    assert(history@.take(history.len() as int) =~= history@);
    string_of(&v)
}

/// The memories a reply of the model yields (see `facts_spec`).
pub fn facts_from_reply(reply: &str) -> (r: Vec<String>)
    ensures
        crate::text::views(r@) == facts_spec(reply@),
{
    let t = trim_str(reply);
    let lowered = to_ascii_lowercase(t.as_str());
    if t.as_str().unicode_len() == 0 || crate::text::str_eq(lowered.as_str(), NO_FACTS) {
        return Vec::new();
    }
    let parts = split_char_exec(&chars_of(t.as_str()), ';');
    let ghost pv = char_views(parts@);
    let mut out: Vec<String> = Vec::new();
    let mut i: usize = 0;
    while i < parts.len()
        invariant
            i <= parts@.len(),
            pv == char_views(parts@),
            pv == split_char(t@, ';'),
            crate::text::views(out@) == memory_contents(pv.take(i as int)),
        decreases parts.len() - i,
    {
        assert(pv.take(i + 1).drop_last() =~= pv.take(i as int));
        assert(pv.take(i + 1).last() == parts@[i as int]@);
        let piece = trim_chars(&parts[i]);
        if piece.len() > 0 {
            let mut m = chars_of(MEMORY_PREFIX);
            append_chars(&mut m, &piece);
            let ghost before = crate::text::views(out@);
            let s = string_of(&m);
            out.push(s);
            assert(crate::text::views(out@) =~= before.push(s@));
        }
        i = i + 1;
    }
    assert(pv.take(parts.len() as int) =~= pv);
    out
}

/// The text of the model's reply: the content of its first choice's
/// message, where there is one.
pub open spec fn reply_content_spec(payload: JsonValue) -> Option<Seq<char>> {
    match get(payload, "choices"@) {
        Some(JsonValue::Array(c)) => if c@.len() > 0 {
            match get(c@[0], "message"@) {
                Some(m) => str_of(get(m, "content"@)),
                None => None,
            }
        } else {
            None
        },
        _ => None,
    }
}

/// The text of the model's reply (see `reply_content_spec`).
pub fn reply_content(payload: &JsonValue) -> (r: Option<String>)
    ensures
        match r {
            Some(s) => reply_content_spec(*payload) == Some(s@),
            None => reply_content_spec(*payload) is None,
        },
{
    match crate::json::get_field(payload, "choices") {
        Some(JsonValue::Array(c)) => if c.len() > 0 {
            match crate::json::get_field(&c[0], "message") {
                Some(m) => crate::json::field_str(m, "content"),
                None => None,
            }
        } else {
            None
        },
        _ => None,
    }
}

} // verus!
