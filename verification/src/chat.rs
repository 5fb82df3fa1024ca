//! The chat assistant: the tools it offers, the agent it runs, and the
//! system prompt it builds from private memories and the conversation.
use vstd::prelude::*;

use crate::agent_runtime::ReactAgent;
use crate::config::AppConfig;
use crate::model::ChatMessage;
use crate::session::{ASSISTANT_ROLE, USER_ROLE};
use crate::text::{
    append_str, chars_of, concat, is_blank, is_blank_str, str_eq, string_of, to_string, trim, trim_str,
};

verus! {

pub const REACT_AGENT_NAME: &'static str = "intelligent_assistant";

pub const DATETIME_TOOL: &'static str = "getCurrentDateTime";

pub const INTERNAL_DOCS_TOOL: &'static str = "queryInternalDocs";

pub const DEFAULT_SYSTEM_PROMPT: &'static str =
    "你是一个专业的智能助手，可以获取当前时间、查询内部文档知识库，以及查询 Prometheus 告警信息。\n\n";

pub const MEMORY_START: &'static str = "--- 私人记忆 ---\n";

pub const MEMORY_END: &'static str = "--- 私人记忆结束 ---\n\n";

pub const HISTORY_START: &'static str = "--- 对话历史 ---\n";

pub const HISTORY_END: &'static str = "--- 对话历史结束 ---\n\n";

pub const CLOSING: &'static str = "请基于以上对话历史，回答用户的新问题。";

pub const USER_LABEL: &'static str = "用户: ";

pub const ASSISTANT_LABEL: &'static str = "助手: ";

/// One piece of a streamed answer: text as it comes, then the whole answer.
#[derive(Debug, Clone, PartialEq, Eq)]
pub enum ChatStreamEvent {
    Content(String),
    Final(String),
}

/// The error a chat tool reports, as its message.
#[derive(Debug)]
pub struct ChatToolError(pub String);

/// The memories block of the prompt: each memory that is not blank on a
/// line of its own, between markers; nothing where there is no memory.
pub open spec fn memories_block(memories: Seq<Seq<char>>) -> Seq<char> {
    if memories.len() == 0 {
        seq![]
    } else {
        MEMORY_START@ + memory_lines(memories) + MEMORY_END@
    }
}

pub open spec fn memory_lines(memories: Seq<Seq<char>>) -> Seq<char>
    decreases memories.len(),
{
    if memories.len() == 0 {
        seq![]
    } else {
        memory_lines(memories.drop_last()) + if is_blank(memories.last()) {
            seq![]
        } else {
            "- "@ + memories.last() + seq!['\n']
        }
    }
}

/// The lines of the conversation: questions and answers labelled, other
/// messages left out.
pub open spec fn history_lines(h: Seq<ChatMessage>) -> Seq<char>
    decreases h.len(),
{
    if h.len() == 0 {
        seq![]
    } else {
        history_lines(h.drop_last()) + if h.last().role@ == USER_ROLE@ {
            USER_LABEL@ + h.last().content@ + seq!['\n']
        } else if h.last().role@ == ASSISTANT_ROLE@ {
            ASSISTANT_LABEL@ + h.last().content@ + seq!['\n']
        } else {
            seq![]
        }
    }
}

/// The system prompt: the base prompt and a blank line, the memories, the
/// conversation, and the closing request.
pub open spec fn system_prompt_spec(base: Seq<char>, h: Seq<ChatMessage>, memories: Seq<Seq<char>>) -> Seq<char> {
    let head = base + "\n\n"@ + memories_block(memories);
    if h.len() == 0 {
        head + CLOSING@
    } else {
        head + HISTORY_START@ + history_lines(h) + HISTORY_END@ + CLOSING@
    }
}

/// The chat assistant's settings.
pub struct ChatService {
    pub api_key: Option<String>,
    pub base_url: String,
    pub responses_rectifier_enabled: bool,
    pub model: String,
    pub max_turns: usize,
}

impl ChatService {
    pub fn new(config: &AppConfig) -> (r: ChatService)
        ensures
            r.api_key == config.dashscope_api_key,
            r.base_url == config.dashscope_api_base_url,
            r.responses_rectifier_enabled == config.dashscope_responses_rectifier_enabled,
            r.model == config.dashscope_chat_model,
            r.max_turns == config.chat_agent_max_turns,
    {
        ChatService {
            api_key: match &config.dashscope_api_key {
                Some(k) => Some(k.clone()),
                None => None,
            },
            base_url: config.dashscope_api_base_url.clone(),
            responses_rectifier_enabled: config.dashscope_responses_rectifier_enabled,
            model: config.dashscope_chat_model.clone(),
            max_turns: config.chat_agent_max_turns,
        }
    }

    /// The names of the tools the assistant has.
    pub fn build_method_tools_array(&self) -> (r: Vec<String>)
        ensures
            crate::text::views(r@) == seq![DATETIME_TOOL@, INTERNAL_DOCS_TOOL@],
    {
        let mut r: Vec<String> = Vec::new();
        r.push(to_string(DATETIME_TOOL));
        r.push(to_string(INTERNAL_DOCS_TOOL));
        assert(crate::text::views(r@) =~= seq![DATETIME_TOOL@, INTERNAL_DOCS_TOOL@]);
        r
    }

    /// The external tools the assistant has: none.
    pub fn get_tool_callbacks(&self) -> (r: Vec<String>)
        ensures
            r@.len() == 0,
    {
        Vec::new()
    }

    pub fn chat_model(&self) -> (r: &str)
        ensures
            r@ == self.model@,
    {
        self.model.as_str()
    }

    /// The system prompt for a question (see `system_prompt_spec`): `base`
    /// is the prompt read from the prompt file, or the default one.
    pub fn build_system_prompt(
        &self,
        base: &str,
        history: &[ChatMessage],
        private_memories: &Vec<String>,
    ) -> (r: String)
        ensures
            r@ == system_prompt_spec(base@, history@, crate::text::views(private_memories@)),
    {
        let mut prompt = chars_of(base);
        append_str(&mut prompt, "\n\n");
        let ghost head0 = prompt@;
        if private_memories.len() > 0 {
            append_str(&mut prompt, MEMORY_START);
            let ghost mstart = prompt@;
            let mut i: usize = 0;
            while i < private_memories.len()
                invariant
                    i <= private_memories.len(),
                    prompt@ == mstart + memory_lines(crate::text::views(private_memories@).take(i as int)),
                decreases private_memories.len() - i,
            {
                let m = private_memories[i].as_str();
                assert(crate::text::views(private_memories@).take(i + 1).drop_last()
                    =~= crate::text::views(private_memories@).take(i as int));
                assert(crate::text::views(private_memories@).take(i + 1).last() == m@);
                let ghost before = prompt@;
                if !is_blank_str(m) {
                    append_str(&mut prompt, "- ");
                    append_str(&mut prompt, m);
                    prompt.push('\n');
                }
                assert(prompt@ =~= mstart + memory_lines(crate::text::views(private_memories@).take(i + 1)));
                i = i + 1;
            }
            assert(crate::text::views(private_memories@).take(private_memories.len() as int)
                =~= crate::text::views(private_memories@));
            append_str(&mut prompt, MEMORY_END);
        }
        assert(prompt@ =~= base@ + "\n\n"@ + memories_block(crate::text::views(private_memories@)));
        if history.len() == 0 {
            append_str(&mut prompt, CLOSING);
            return string_of(&prompt);
        }
        append_str(&mut prompt, HISTORY_START);
        let ghost hstart = prompt@;
        let mut i: usize = 0;
        while i < history.len()
            invariant
                i <= history.len(),
                prompt@ == hstart + history_lines(history@.take(i as int)),
            decreases history.len() - i,
        {
            let m = &history[i];
            assert(history@.take(i + 1).drop_last() =~= history@.take(i as int));
            if str_eq(m.role.as_str(), USER_ROLE) {
                append_str(&mut prompt, USER_LABEL);
                append_str(&mut prompt, m.content.as_str());
                prompt.push('\n');
            } else if str_eq(m.role.as_str(), ASSISTANT_ROLE) {
                append_str(&mut prompt, ASSISTANT_LABEL);
                append_str(&mut prompt, m.content.as_str());
                prompt.push('\n');
            }
            assert(prompt@ =~= hstart + history_lines(history@.take(i + 1)));
            i = i + 1;
        }
        assert(history@.take(history.len() as int) =~= history@);
        append_str(&mut prompt, HISTORY_END);
        append_str(&mut prompt, CLOSING);
        string_of(&prompt)
    }

    /// The agent that answers a question with `system_prompt`.
    pub fn create_react_agent(&self, model: &str, system_prompt: &str) -> (r: ReactAgent)
        ensures
            r@.name == REACT_AGENT_NAME@,
            r@.model == model@,
            r@.system_prompt == system_prompt@,
            r@.max_turns == self.max_turns,
            r@.method_tools == seq![DATETIME_TOOL@, INTERNAL_DOCS_TOOL@],
            r@.tool_callbacks.len() == 0,
            r@.description.len() == 0,
            r@.output_key is None,
            r@.allowed_tools is None,
    {
        ReactAgent::new(REACT_AGENT_NAME, model, system_prompt, self.max_turns).with_tool_metadata(
            self.build_method_tools_array(),
            self.get_tool_callbacks(),
        )
    }
}

// ---------------------------------------------------------------------------
// A chat turn
// ---------------------------------------------------------------------------

pub const EMPTY_QUESTION: &'static str = "问题内容不能为空";

/// The question of a chat request, trimmed; an error where it is missing
/// or blank.
pub fn chat_question(question: Option<&str>) -> (r: Result<String, String>)
    ensures
        match question {
            Some(q) => if trim(q@).len() > 0 {
                r matches Ok(s) && s@ == trim(q@)
            } else {
                r matches Err(e) && e@ == EMPTY_QUESTION@
            },
            None => r matches Err(e) && e@ == EMPTY_QUESTION@,
        },
{
    match question {
        Some(q) => {
            let t = trim_str(q);
            if t.as_str().unicode_len() > 0 {
                Ok(t)
            } else {
                Err(to_string(EMPTY_QUESTION))
            }
        },
        None => Err(to_string(EMPTY_QUESTION)),
    }
}

pub const OFFLINE_ANSWER_PREFIX: &'static str = "oncall-agent-rs received: ";

/// The answer given where no model API key is configured: the question,
/// echoed back.
pub fn offline_answer(question: &str) -> (r: String)
    ensures
        r@ == OFFLINE_ANSWER_PREFIX@ + question@,
{
    concat(OFFLINE_ANSWER_PREFIX, question)
}

/// Where a streamed answer stands: the text streamed so far, and the whole
/// answer where the stream gave one.
pub struct StreamState {
    pub full_answer: String,
    pub final_answer: Option<String>,
}

/// What to do with an event of the stream.
pub enum StreamAction {
    /// Send this text on.
    Emit(String),
    /// Send nothing.
    Nothing,
    /// Send this error and end the stream.
    Stop(String),
}

impl StreamState {
    pub fn new() -> (r: Self)
        ensures
            r.full_answer@.len() == 0,
            r.final_answer is None,
    {
        StreamState { full_answer: String::new(), final_answer: None }
    }

    /// Takes in one event of the stream: text that is not empty is added
    /// and sent on, the whole answer is kept, an error ends the stream.
    pub fn step(&mut self, event: Result<ChatStreamEvent, String>) -> (r: StreamAction)
        ensures
            match event {
                Ok(ChatStreamEvent::Content(c)) => if c@.len() == 0 {
                    r is Nothing && final(self).full_answer@ == old(self).full_answer@
                        && final(self).final_answer == old(self).final_answer
                } else {
                    r matches StreamAction::Emit(t) && t@ == c@ && final(self).full_answer@
                        == old(self).full_answer@ + c@ && final(self).final_answer
                        == old(self).final_answer
                },
                Ok(ChatStreamEvent::Final(a)) => r is Nothing && final(self).full_answer@ == old(
                    self,
                ).full_answer@ && final(self).final_answer == Some(a),
                Err(e) => r matches StreamAction::Stop(t) && t@ == e@ && final(self).full_answer@
                    == old(self).full_answer@ && final(self).final_answer == old(self).final_answer,
            },
    {
        match event {
            Ok(ChatStreamEvent::Content(chunk)) => {
                if chunk.as_str().unicode_len() == 0 {
                    StreamAction::Nothing
                } else {
                    let mut v = chars_of(self.full_answer.as_str());
                    append_str(&mut v, chunk.as_str());
                    self.full_answer = string_of(&v);
                    StreamAction::Emit(chunk)
                }
            },
            Ok(ChatStreamEvent::Final(answer)) => {
                self.final_answer = Some(answer);
                StreamAction::Nothing
            },
            Err(error) => StreamAction::Stop(error),
        }
    }

    /// The answer of a finished stream (the whole answer where it gave one,
    /// else the streamed text), and the text still to send: the answer,
    /// where nothing was streamed and it is not empty.
    pub fn finish(self) -> (r: (String, Option<String>))
        ensures
            r.0@ == (match self.final_answer {
                Some(a) => a@,
                None => self.full_answer@,
            }),
            r.1 == (if self.full_answer@.len() == 0 && r.0@.len() > 0 {
                Some(r.0)
            } else {
                None
            }),
    {
        let full_empty = self.full_answer.as_str().unicode_len() == 0;
        let answer = match self.final_answer {
            Some(a) => a,
            None => self.full_answer,
        };
        if full_empty && answer.as_str().unicode_len() > 0 {
            let copy = answer.clone();
            (answer, Some(copy))
        } else {
            (answer, None)
        }
    }
}

// ---------------------------------------------------------------------------
// Laws of the system prompt
// ---------------------------------------------------------------------------

/// The line a message adds to the conversation in the prompt: a question
/// after `用户: `, an answer after `助手: `, nothing for other roles.
pub open spec fn message_line(m: ChatMessage) -> Seq<char> {
    if m.role@ == USER_ROLE@ {
        USER_LABEL@ + m.content@ + seq!['\n']
    } else if m.role@ == ASSISTANT_ROLE@ {
        ASSISTANT_LABEL@ + m.content@ + seq!['\n']
    } else {
        seq![]
    }
}

/// Law: without history the prompt is the base prompt, a blank line, the
/// memories and the closing request; with one message it holds the
/// conversation block with that message's line.
pub proof fn law_prompt_short_history(base: Seq<char>, m: ChatMessage, memories: Seq<Seq<char>>)
    ensures
        system_prompt_spec(base, seq![], memories) == base + "\n\n"@ + memories_block(memories)
            + CLOSING@,
        system_prompt_spec(base, seq![m], memories) == base + "\n\n"@ + memories_block(memories)
            + HISTORY_START@ + message_line(m) + HISTORY_END@ + CLOSING@,
{
    let h = seq![m];
    assert(h.drop_last() =~= Seq::<ChatMessage>::empty());
    assert(history_lines(h.drop_last()) =~= Seq::<char>::empty());
    assert(h.last() == m);
    assert(history_lines(h) =~= message_line(m));
}

/// Law: one more message of the conversation adds its line at the end of
/// the conversation block, and the rest of the prompt stays as it was:
/// no earlier message is dropped.
pub proof fn law_prompt_history_grows(
    base: Seq<char>,
    h: Seq<ChatMessage>,
    m: ChatMessage,
    memories: Seq<Seq<char>>,
)
    requires
        h.len() > 0,
    ensures
        ({
            let p = system_prompt_spec(base, h, memories);
            let q = system_prompt_spec(base, h.push(m), memories);
            let tail = HISTORY_END@ + CLOSING@;
            &&& p.len() >= tail.len()
            &&& p.skip(p.len() - tail.len()) == tail
            &&& q == p.take(p.len() - tail.len()) + message_line(m) + tail
        }),
{
    let head = base + "\n\n"@ + memories_block(memories);
    let tail = HISTORY_END@ + CLOSING@;
    assert(h.push(m).drop_last() =~= h);
    assert(history_lines(h.push(m)) =~= history_lines(h) + message_line(m));
    let p = system_prompt_spec(base, h, memories);
    let front = head + HISTORY_START@ + history_lines(h);
    assert(p =~= front + tail);
    assert(p.skip(p.len() - tail.len()) =~= tail);
    assert(p.take(p.len() - tail.len()) =~= front);
    assert(system_prompt_spec(base, h.push(m), memories) =~= front + message_line(m) + tail);
}


/// The line a memory adds to the prompt: `- ` and the memory, nothing for
/// a blank one.
pub open spec fn memory_line(m: Seq<char>) -> Seq<char> {
    if is_blank(m) {
        seq![]
    } else {
        "- "@ + m + seq!['\n']
    }
}

/// Law: no memories give no memory block; one memory gives the block with
/// its line; one more memory adds its line at the end of the block, and no
/// earlier memory is dropped.
pub proof fn law_memory_block(memories: Seq<Seq<char>>, x: Seq<char>)
    ensures
        memories_block(seq![]) == Seq::<char>::empty(),
        memories_block(seq![x]) == MEMORY_START@ + memory_line(x) + MEMORY_END@,
        memories.len() > 0 ==> ({
            let b = memories_block(memories);
            &&& b.len() >= MEMORY_END@.len()
            &&& memories_block(memories.push(x)) == b.take(b.len() - MEMORY_END@.len())
                + memory_line(x) + MEMORY_END@
        }),
{
    let one = seq![x];
    assert(one.drop_last() =~= Seq::<Seq<char>>::empty());
    assert(memory_lines(one.drop_last()) =~= Seq::<char>::empty());
    assert(one.last() == x);
    assert(memory_lines(one) =~= memory_line(x));
    if memories.len() > 0 {
        let more = memories.push(x);
        assert(more.drop_last() =~= memories);
        assert(memory_lines(more) =~= memory_lines(memories) + memory_line(x));
        let b = memories_block(memories);
        assert(b.take(b.len() - MEMORY_END@.len()) =~= MEMORY_START@ + memory_lines(memories));
    }
}


} // verus!
